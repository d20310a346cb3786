use vstd::prelude::*;

use crate::grid::{grid_wf, grid_write, zero_grid, Grid};

verus! {

/// The value of mask pattern `r` at row `y`, column `x`: 1 where the
/// pattern's defining condition holds, else 0.
pub open spec fn mask_bit(r: int, y: int, x: int) -> u8 {
    if r == 0 {
        if y % 2 == 0 {
            1
        } else {
            0
        }
    } else if r == 1 {
        if (y / 2 + x / 3) % 2 == 0 {
            1
        } else {
            0
        }
    } else if r == 2 {
        if ((y * x) % 2 + (y * x) % 3) % 2 == 0 {
            1
        } else {
            0
        }
    } else {
        if ((y + x) % 2 + (y * x) % 3) % 2 == 0 {
            1
        } else {
            0
        }
    }
}

/// The full 17-by-17 grid of mask pattern `r`.
pub open spec fn mask_grid(r: int) -> Seq<Seq<u8>> {
    Seq::new(17, |y: int| Seq::new(17, |x: int| mask_bit(r, y, x)))
}

/// One of the four deterministic mask grids, without a pattern reference.
#[derive(Debug)]
pub struct MaskPattern {
    grid: Grid,
}

impl View for MaskPattern {
    type V = Seq<Seq<u8>>;

    closed spec fn view(&self) -> Seq<Seq<u8>> {
        self.grid@
    }
}

impl MaskPattern {
    pub closed spec fn wf(self) -> bool {
        self.grid.wf() && grid_wf(self@)
    }

    pub fn new() -> (m: MaskPattern)
        ensures
            m.wf(),
            m@ == zero_grid(),
            grid_wf(m@),
    {
        MaskPattern { grid: Grid::new() }
    }

    pub fn pattern_00() -> (m: MaskPattern)
        ensures
            m.wf(),
            m@ == mask_grid(0),
    {
        let mut m = Self::new();
        fill_mask_grid(&mut m.grid, 0);
        m
    }

    pub fn pattern_01() -> (m: MaskPattern)
        ensures
            m.wf(),
            m@ == mask_grid(1),
    {
        let mut m = Self::new();
        fill_mask_grid(&mut m.grid, 1);
        m
    }

    pub fn pattern_10() -> (m: MaskPattern)
        ensures
            m.wf(),
            m@ == mask_grid(2),
    {
        let mut m = Self::new();
        fill_mask_grid(&mut m.grid, 2);
        m
    }

    pub fn pattern_11() -> (m: MaskPattern)
        ensures
            m.wf(),
            m@ == mask_grid(3),
    {
        let mut m = Self::new();
        fill_mask_grid(&mut m.grid, 3);
        m
    }

    pub fn read(&self, y: usize, x: usize) -> (r: u8)
        requires
            self.wf(),
            y < 17,
            x < 17,
        ensures
            r == self@[y as int][x as int],
            r <= 1,
    {
        self.grid.read(y, x)
    }

    pub fn write(&mut self, y: usize, x: usize, value: u8)
        requires
            old(self).wf(),
            y < 17,
            x < 17,
            value <= 1,
        ensures
            final(self).wf(),
            final(self)@ == grid_write(old(self)@, y as int, x as int, value),
    {
        self.grid.write(y, x, value);
    }
}

/// Whether mask pattern `r` is dark at `(y, x)`, decided in executable code.
pub(crate) fn mask_condition(r: u8, y: usize, x: usize) -> (dark: bool)
    requires
        r < 4,
        y < 17,
        x < 17,
    ensures
        dark == (mask_bit(r as int, y as int, x as int) == 1),
{
    proof {
        assert(y * x <= 256) by (nonlinear_arith)
            requires
                y <= 16 && x <= 16,
        ;
    }
    if r == 0 {
        y % 2 == 0
    } else if r == 1 {
        ((y / 2) + (x / 3)) % 2 == 0
    } else if r == 2 {
        ((y * x) % 2 + (y * x) % 3) % 2 == 0
    } else {
        ((y + x) % 2 + (y * x) % 3) % 2 == 0
    }
}

/// Fill a zeroed grid with mask pattern `r`.
pub(crate) fn fill_mask_grid(grid: &mut Grid, r: u8)
    requires
        old(grid).wf(),
        old(grid)@ == zero_grid(),
        r < 4,
    ensures
        final(grid).wf(),
        final(grid)@ == mask_grid(r as int),
{
    let mut y: usize = 0;
    while y < 17
        invariant
            grid.wf(),
            y <= 17,
            r < 4,
            grid_wf(grid@),
            forall|yy: int, xx: int|
                0 <= yy < 17 && 0 <= xx < 17 ==> #[trigger] grid@[yy][xx] == (if yy < y {
                    mask_bit(r as int, yy, xx)
                } else {
                    0u8
                }),
        decreases 17 - y,
    {
        let mut x: usize = 0;
        while x < 17
            invariant
                grid.wf(),
                y < 17,
                x <= 17,
                r < 4,
                grid_wf(grid@),
                forall|yy: int, xx: int|
                    0 <= yy < 17 && 0 <= xx < 17 ==> #[trigger] grid@[yy][xx] == (if yy < y || (yy
                        == y && xx < x) {
                        mask_bit(r as int, yy, xx)
                    } else {
                        0u8
                    }),
            decreases 17 - x,
        {
            if mask_condition(r, y, x) {
                grid.write(y, x, 1);
            }
            x = x + 1;
        }
        y = y + 1;
    }
    proof {
        assert(grid@ =~~= mask_grid(r as int));
    }
}

} // verus!
