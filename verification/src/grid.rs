use vstd::prelude::*;

verus! {

/// A well-formed module grid: 17 rows of 17 cells, each cell 0 or 1.
pub open spec fn grid_wf(g: Seq<Seq<u8>>) -> bool {
    &&& g.len() == 17
    &&& forall|y: int| 0 <= y < 17 ==> (#[trigger] g[y]).len() == 17
    &&& forall|y: int, x: int| 0 <= y < 17 && 0 <= x < 17 ==> #[trigger] g[y][x] <= 1
}

/// The all-light grid.
pub open spec fn zero_grid() -> Seq<Seq<u8>> {
    Seq::new(17, |y: int| Seq::new(17, |x: int| 0u8))
}

/// The grid with one cell replaced.
pub open spec fn grid_write(g: Seq<Seq<u8>>, y: int, x: int, v: u8) -> Seq<Seq<u8>> {
    g.update(y, g[y].update(x, v))
}

/// A 17-by-17 grid of 0/1 modules, stored row-major.
#[derive(Debug)]
pub struct Grid {
    data: Vec<u8>,
}

impl View for Grid {
    type V = Seq<Seq<u8>>;

    closed spec fn view(&self) -> Seq<Seq<u8>> {
        Seq::new(17, |y: int| Seq::new(17, |x: int| self.data@[17 * y + x]))
    }
}

impl Grid {
    /// The backing vector holds exactly the 289 cells, each 0 or 1.
    pub closed spec fn wf(self) -> bool {
        self.data@.len() == 289 && grid_wf(self@)
    }

    pub fn new() -> (g: Grid)
        ensures
            g.wf(),
            g@ == zero_grid(),
            grid_wf(g@),
    {
        let mut data: Vec<u8> = Vec::new();
        while data.len() < 289
            invariant
                data@.len() <= 289,
                forall|i: int| 0 <= i < data@.len() ==> data@[i] == 0u8,
            decreases 289 - data@.len(),
        {
            data.push(0);
        }
        let g = Grid { data };
        proof {
            assert(g@ =~~= zero_grid());
        }
        g
    }

    pub fn read(&self, y: usize, x: usize) -> (r: u8)
        requires
            self.wf(),
            y < 17,
            x < 17,
        ensures
            r == self@[y as int][x as int],
            r <= 1,
    {
        proof {
            assert(self@[y as int].len() == 17);
            assert(self@[y as int][x as int] == self.data@[17 * (y as int) + x as int]);
            assert(self@[y as int][x as int] <= 1);
        }
        self.data[17 * y + x]
    }

    pub fn write(&mut self, y: usize, x: usize, value: u8)
        requires
            old(self).wf(),
            y < 17,
            x < 17,
            value <= 1,
        ensures
            final(self).wf(),
            final(self)@ == grid_write(old(self)@, y as int, x as int, value),
            grid_wf(final(self)@),
    {
        proof {
            assert(self@[y as int].len() == 17);
        }
        self.data.set(17 * y + x, value);
        proof {
            assert(self@ =~~= grid_write(old(self)@, y as int, x as int, value));
        }
    }
}

} // verus!
