use vstd::prelude::*;

use crate::bit_block::{cw_bit, BitBlock, DownwardsBlock, UpwardsBlock};
use crate::data_mask::DataMask;
use crate::grid::{grid_wf, zero_grid, Grid};
use crate::pattern_scoring::PatternScoring;

verus! {

/// The fixed function pattern of the symbol: the 7-by-7 finder in the top
/// left corner (outer ring and 3-by-3 core dark), the light separator around
/// it, and the alternating timing marks along row 0 and column 0.
pub open spec fn base_module(y: int, x: int) -> u8 {
    if y < 7 && x < 7 {
        if y == 0 || y == 6 || x == 0 || x == 6 || (2 <= y <= 4 && 2 <= x <= 4) {
            1
        } else {
            0
        }
    } else if y == 0 {
        if x % 2 == 0 {
            1
        } else {
            0
        }
    } else if x == 0 {
        if y % 2 == 0 {
            1
        } else {
            0
        }
    } else {
        0
    }
}

/// The grid holding only the fixed function pattern.
pub open spec fn base_grid() -> Seq<Seq<u8>> {
    Seq::new(17, |y: int| Seq::new(17, |x: int| base_module(y, x)))
}

/// Bit `(i, j)` of a codeword placed as a 4-by-2 block, for the upward and
/// the downward traversal direction.
pub open spec fn block_bit(cw: u8, up: bool, i: int, j: int) -> u8 {
    if up {
        cw_bit(cw, (2 * i + j) as u8)
    } else {
        cw_bit(cw, (2 * (3 - i) + j) as u8)
    }
}

/// The grid after one codeword's 8 bits are placed as a 4-by-2 block whose
/// top-left cell is `(y0, x0)`.
pub open spec fn place_block(g: Seq<Seq<u8>>, cw: u8, up: bool, y0: int, x0: int) -> Seq<
    Seq<u8>,
> {
    Seq::new(
        17,
        |y: int|
            Seq::new(
                17,
                |x: int|
                    if y0 <= y < y0 + 4 && x0 <= x < x0 + 2 {
                        block_bit(cw, up, y - y0, x - x0)
                    } else {
                        g[y][x]
                    },
            ),
    )
}

/// The grid after all 24 codewords are placed, snaking up and down the
/// column pairs from the right edge towards the left.
pub open spec fn placed_from(g: Seq<Seq<u8>>, data: Seq<u8>) -> Seq<Seq<u8>> {
    let g0 = place_block(g, data[0], true, 13, 15);
    let g1 = place_block(g0, data[1], true, 9, 15);
    let g2 = place_block(g1, data[2], true, 5, 15);
    let g3 = place_block(g2, data[3], true, 1, 15);
    let g4 = place_block(g3, data[4], false, 1, 13);
    let g5 = place_block(g4, data[5], false, 5, 13);
    let g6 = place_block(g5, data[6], false, 9, 13);
    let g7 = place_block(g6, data[7], false, 13, 13);
    let g8 = place_block(g7, data[8], true, 13, 11);
    let g9 = place_block(g8, data[9], true, 9, 11);
    let g10 = place_block(g9, data[10], true, 5, 11);
    let g11 = place_block(g10, data[11], true, 1, 11);
    let g12 = place_block(g11, data[12], false, 1, 9);
    let g13 = place_block(g12, data[13], false, 5, 9);
    let g14 = place_block(g13, data[14], false, 9, 9);
    let g15 = place_block(g14, data[15], false, 13, 9);
    let g16 = place_block(g15, data[16], true, 13, 7);
    let g17 = place_block(g16, data[17], true, 9, 7);
    let g18 = place_block(g17, data[18], false, 9, 5);
    let g19 = place_block(g18, data[19], false, 13, 5);
    let g20 = place_block(g19, data[20], true, 13, 3);
    let g21 = place_block(g20, data[21], true, 9, 3);
    let g22 = place_block(g21, data[22], false, 9, 1);
    let g23 = place_block(g22, data[23], false, 13, 1);
    g23
}

/// The grid of data codewords laid over the fixed function pattern.
pub open spec fn with_data_grid(data: Seq<u8>) -> Seq<Seq<u8>> {
    placed_from(base_grid(), data)
}

/// Whether `(y, x)` belongs to the region that masking may toggle: everything
/// outside row 0 and column 0 that lies beyond the finder's rows and columns.
pub open spec fn mask_eligible(y: int, x: int) -> bool {
    1 <= y < 17 && 1 <= x < 17 && (y > 8 || x > 8)
}

/// The grid XOR-ed with a mask pattern over the mask-eligible region.
pub open spec fn masked_grid(g: Seq<Seq<u8>>, p: Seq<Seq<u8>>) -> Seq<Seq<u8>> {
    Seq::new(
        17,
        |y: int|
            Seq::new(
                17,
                |x: int|
                    if mask_eligible(y, x) {
                        g[y][x] ^ p[y][x]
                    } else {
                        g[y][x]
                    },
            ),
    )
}

/// Bit `k` of the 15-bit format information, as 0 or 1.
pub open spec fn fbit(f: u16, k: u16) -> u8 {
    ((f >> k) & 1) as u8
}

/// The grid with the format information embedded: its low 8 bits run down
/// column 8 in rows 1 through 8, its high 7 bits run right to left along
/// row 8 in columns 7 through 1.
pub open spec fn format_grid(g: Seq<Seq<u8>>, f: u16) -> Seq<Seq<u8>> {
    Seq::new(
        17,
        |y: int|
            Seq::new(
                17,
                |x: int|
                    if x == 8 && 1 <= y <= 8 {
                        fbit(f, (y - 1) as u16)
                    } else if y == 8 && 1 <= x <= 7 {
                        fbit(f, (15 - x) as u16)
                    } else {
                        g[y][x]
                    },
            ),
    )
}

/// Dark modules among the first `n` cells of column `x`.
pub open spec fn col_sum(g: Seq<Seq<u8>>, x: int, n: int) -> int
    decreases n,
{
    if n <= 0 {
        0
    } else {
        col_sum(g, x, n - 1) + g[n - 1][x]
    }
}

/// Dark modules among the first `n` cells of row `y`.
pub open spec fn row_sum(g: Seq<Seq<u8>>, y: int, n: int) -> int
    decreases n,
{
    if n <= 0 {
        0
    } else {
        row_sum(g, y, n - 1) + g[y][n - 1]
    }
}

proof fn lemma_xor_bit(a: u8, b: u8)
    by (bit_vector)
    ensures
        a <= 1 && b <= 1 ==> (a ^ b) <= 1,
        (a ^ b) ^ b == a,
{
}

proof fn lemma_fbit_le_one(f: u16, k: u16)
    by (bit_vector)
    ensures
        fbit(f, k) <= 1,
{
}

/// Applying the same mask twice gives the original grid back: XOR with the
/// pattern is its own inverse on the mask-eligible region, and the rest is
/// never touched.
pub proof fn lemma_mask_involution(g: Seq<Seq<u8>>, p: Seq<Seq<u8>>)
    requires
        grid_wf(g),
    ensures
        masked_grid(masked_grid(g, p), p) == g,
{
    assert forall|y: int, x: int| 0 <= y < 17 && 0 <= x < 17 implies masked_grid(
        masked_grid(g, p),
        p,
    )[y][x] == g[y][x] by {
        if mask_eligible(y, x) {
            lemma_xor_bit(g[y][x], p[y][x]);
        }
    }
    assert(masked_grid(masked_grid(g, p), p) =~~= g);
}

/// The 17-by-17 module grid of the symbol.
pub struct CodeMatrix {
    grid: Grid,
}

impl View for CodeMatrix {
    type V = Seq<Seq<u8>>;

    closed spec fn view(&self) -> Seq<Seq<u8>> {
        self.grid@
    }
}

impl CodeMatrix {
    pub closed spec fn wf(self) -> bool {
        self.grid.wf() && grid_wf(self@)
    }

    pub fn new() -> (m: CodeMatrix)
        ensures
            m.wf(),
            m@ == zero_grid(),
            grid_wf(m@),
    {
        CodeMatrix { grid: Grid::new() }
    }

    pub fn read(&self, y: usize, x: usize) -> (r: u8)
        requires
            self.wf(),
            y < 17,
            x < 17,
        ensures
            r == self@[y as int][x as int],
            r <= 1,
    {
        self.grid.read(y, x)
    }

    pub fn write(&mut self, y: usize, x: usize, value: u8)
        requires
            old(self).wf(),
            y < 17,
            x < 17,
            value <= 1,
        ensures
            final(self).wf(),
            final(self)@ == crate::grid::grid_write(old(self)@, y as int, x as int, value),
    {
        self.grid.write(y, x, value);
    }

    /// Load the fixed function pattern, overwriting every cell.
    pub fn init(&mut self)
        requires
            old(self).wf(),
        ensures
            final(self).wf(),
            final(self)@ == base_grid(),
    {
        let mut y: usize = 0;
        while y < 17
            invariant
                self.wf(),
                y <= 17,
                grid_wf(self@),
                forall|yy: int, xx: int|
                    0 <= yy < 17 && 0 <= xx < 17 && yy < y ==> #[trigger] self@[yy][xx]
                        == base_module(yy, xx),
            decreases 17 - y,
        {
            let mut x: usize = 0;
            while x < 17
                invariant
                    self.wf(),
                    y < 17,
                    x <= 17,
                    grid_wf(self@),
                    forall|yy: int, xx: int|
                        0 <= yy < 17 && 0 <= xx < 17 && (yy < y || (yy == y && xx < x))
                            ==> #[trigger] self@[yy][xx] == base_module(yy, xx),
                decreases 17 - x,
            {
                let v: u8 = if y < 7 && x < 7 {
                    if y == 0 || y == 6 || x == 0 || x == 6 || (2 <= y && y <= 4 && 2 <= x && x
                        <= 4) {
                        1
                    } else {
                        0
                    }
                } else if y == 0 {
                    if x % 2 == 0 {
                        1
                    } else {
                        0
                    }
                } else if x == 0 {
                    if y % 2 == 0 {
                        1
                    } else {
                        0
                    }
                } else {
                    0
                };
                self.grid.write(y, x, v);
                x = x + 1;
            }
            y = y + 1;
        }
        proof {
            assert(self@ =~~= base_grid());
        }
    }

    /// Place one codeword's bits as a 4-by-2 block anchored at `(y, x)`.
    pub fn write_block(&mut self, block: &impl BitBlock, y: usize, x: usize)
        requires
            old(self).wf(),
            y + 4 <= 17,
            x + 2 <= 17,
        ensures
            final(self).wf(),
            final(self)@.len() == 17,
            forall|yy: int, xx: int|
                0 <= yy < 17 && 0 <= xx < 17 ==> #[trigger] final(self)@[yy][xx] == (if y <= yy < y
                    + 4 && x <= xx < x + 2 {
                    block.bit_at(yy - y, xx - x)
                } else {
                    old(self)@[yy][xx]
                }),
    {
        let mut i: usize = 0;
        while i < 4
            invariant
                self.wf(),
                i <= 4,
                y + 4 <= 17,
                x + 2 <= 17,
                grid_wf(self@),
                forall|yy: int, xx: int|
                    0 <= yy < 17 && 0 <= xx < 17 ==> #[trigger] self@[yy][xx] == (if y <= yy < y
                        + i && x <= xx < x + 2 {
                        block.bit_at(yy - y, xx - x)
                    } else {
                        old(self)@[yy][xx]
                    }),
            decreases 4 - i,
        {
            let mut j: usize = 0;
            while j < 2
                invariant
                    self.wf(),
                    i < 4,
                    j <= 2,
                    y + 4 <= 17,
                    x + 2 <= 17,
                    grid_wf(self@),
                    forall|yy: int, xx: int|
                        0 <= yy < 17 && 0 <= xx < 17 ==> #[trigger] self@[yy][xx] == (if (y <= yy
                            < y + i && x <= xx < x + 2) || (yy == y + i && x <= xx < x + j) {
                            block.bit_at(yy - y, xx - x)
                        } else {
                            old(self)@[yy][xx]
                        }),
                decreases 2 - j,
            {
                self.grid.write(y + i, x + j, block.value_at(i, j));
                j = j + 1;
            }
            i = i + 1;
        }
    }

    /// Place all 24 codewords at their fixed anchors and directions.
    fn write_data(&mut self, data: &[u8])
        requires
            old(self).wf(),
            data@.len() >= 24,
        ensures
            final(self).wf(),
            final(self)@ == placed_from(old(self)@, data@),
    {
        let b0 = UpwardsBlock::new(data[0]);
        self.write_block(&b0, 13, 15);
        proof {
            assert(self@ =~~= place_block(old(self)@, data@[0], true, 13, 15));
        }
        let ghost g0 = self@;
        let b1 = UpwardsBlock::new(data[1]);
        self.write_block(&b1, 9, 15);
        proof {
            assert(self@ =~~= place_block(g0, data@[1], true, 9, 15));
        }
        let ghost g1 = self@;
        let b2 = UpwardsBlock::new(data[2]);
        self.write_block(&b2, 5, 15);
        proof {
            assert(self@ =~~= place_block(g1, data@[2], true, 5, 15));
        }
        let ghost g2 = self@;
        let b3 = UpwardsBlock::new(data[3]);
        self.write_block(&b3, 1, 15);
        proof {
            assert(self@ =~~= place_block(g2, data@[3], true, 1, 15));
        }
        let ghost g3 = self@;
        let b4 = DownwardsBlock::new(data[4]);
        self.write_block(&b4, 1, 13);
        proof {
            assert(self@ =~~= place_block(g3, data@[4], false, 1, 13));
        }
        let ghost g4 = self@;
        let b5 = DownwardsBlock::new(data[5]);
        self.write_block(&b5, 5, 13);
        proof {
            assert(self@ =~~= place_block(g4, data@[5], false, 5, 13));
        }
        let ghost g5 = self@;
        let b6 = DownwardsBlock::new(data[6]);
        self.write_block(&b6, 9, 13);
        proof {
            assert(self@ =~~= place_block(g5, data@[6], false, 9, 13));
        }
        let ghost g6 = self@;
        let b7 = DownwardsBlock::new(data[7]);
        self.write_block(&b7, 13, 13);
        proof {
            assert(self@ =~~= place_block(g6, data@[7], false, 13, 13));
        }
        let ghost g7 = self@;
        let b8 = UpwardsBlock::new(data[8]);
        self.write_block(&b8, 13, 11);
        proof {
            assert(self@ =~~= place_block(g7, data@[8], true, 13, 11));
        }
        let ghost g8 = self@;
        let b9 = UpwardsBlock::new(data[9]);
        self.write_block(&b9, 9, 11);
        proof {
            assert(self@ =~~= place_block(g8, data@[9], true, 9, 11));
        }
        let ghost g9 = self@;
        let b10 = UpwardsBlock::new(data[10]);
        self.write_block(&b10, 5, 11);
        proof {
            assert(self@ =~~= place_block(g9, data@[10], true, 5, 11));
        }
        let ghost g10 = self@;
        let b11 = UpwardsBlock::new(data[11]);
        self.write_block(&b11, 1, 11);
        proof {
            assert(self@ =~~= place_block(g10, data@[11], true, 1, 11));
        }
        let ghost g11 = self@;
        let b12 = DownwardsBlock::new(data[12]);
        self.write_block(&b12, 1, 9);
        proof {
            assert(self@ =~~= place_block(g11, data@[12], false, 1, 9));
        }
        let ghost g12 = self@;
        let b13 = DownwardsBlock::new(data[13]);
        self.write_block(&b13, 5, 9);
        proof {
            assert(self@ =~~= place_block(g12, data@[13], false, 5, 9));
        }
        let ghost g13 = self@;
        let b14 = DownwardsBlock::new(data[14]);
        self.write_block(&b14, 9, 9);
        proof {
            assert(self@ =~~= place_block(g13, data@[14], false, 9, 9));
        }
        let ghost g14 = self@;
        let b15 = DownwardsBlock::new(data[15]);
        self.write_block(&b15, 13, 9);
        proof {
            assert(self@ =~~= place_block(g14, data@[15], false, 13, 9));
        }
        let ghost g15 = self@;
        let b16 = UpwardsBlock::new(data[16]);
        self.write_block(&b16, 13, 7);
        proof {
            assert(self@ =~~= place_block(g15, data@[16], true, 13, 7));
        }
        let ghost g16 = self@;
        let b17 = UpwardsBlock::new(data[17]);
        self.write_block(&b17, 9, 7);
        proof {
            assert(self@ =~~= place_block(g16, data@[17], true, 9, 7));
        }
        let ghost g17 = self@;
        let b18 = DownwardsBlock::new(data[18]);
        self.write_block(&b18, 9, 5);
        proof {
            assert(self@ =~~= place_block(g17, data@[18], false, 9, 5));
        }
        let ghost g18 = self@;
        let b19 = DownwardsBlock::new(data[19]);
        self.write_block(&b19, 13, 5);
        proof {
            assert(self@ =~~= place_block(g18, data@[19], false, 13, 5));
        }
        let ghost g19 = self@;
        let b20 = UpwardsBlock::new(data[20]);
        self.write_block(&b20, 13, 3);
        proof {
            assert(self@ =~~= place_block(g19, data@[20], true, 13, 3));
        }
        let ghost g20 = self@;
        let b21 = UpwardsBlock::new(data[21]);
        self.write_block(&b21, 9, 3);
        proof {
            assert(self@ =~~= place_block(g20, data@[21], true, 9, 3));
        }
        let ghost g21 = self@;
        let b22 = DownwardsBlock::new(data[22]);
        self.write_block(&b22, 9, 1);
        proof {
            assert(self@ =~~= place_block(g21, data@[22], false, 9, 1));
        }
        let ghost g22 = self@;
        let b23 = DownwardsBlock::new(data[23]);
        self.write_block(&b23, 13, 1);
        proof {
            assert(self@ =~~= place_block(g22, data@[23], false, 13, 1));
        }
    }

    /// The matrix holding the fixed function pattern and the 24 codewords.
    pub fn with_data(data: &[u8]) -> (m: CodeMatrix)
        requires
            data@.len() >= 24,
        ensures
            m.wf(),
            m@ == with_data_grid(data@),
    {
        let mut matrix = Self::new();

        matrix.init();
        matrix.write_data(data);

        matrix
    }

    fn copy(&mut self, y: usize, x: usize, other: &CodeMatrix)
        requires
            old(self).wf(),
            other.wf(),
            y < 17,
            x < 17,
        ensures
            final(self).wf(),
            final(self)@ == crate::grid::grid_write(
                old(self)@,
                y as int,
                x as int,
                other@[y as int][x as int],
            ),
    {
        let v = other.read(y, x);
        self.write(y, x, v);
    }

    fn clone(&self) -> (m: CodeMatrix)
        requires
            self.wf(),
        ensures
            m.wf(),
            m@ == self@,
    {
        let mut instance = Self::new();

        let mut y: usize = 0;
        while y < 17
            invariant
                instance.wf(),
                self.wf(),
                y <= 17,
                grid_wf(instance@),
                grid_wf(self@),
                forall|yy: int, xx: int|
                    0 <= yy < 17 && 0 <= xx < 17 && yy < y ==> #[trigger] instance@[yy][xx]
                        == self@[yy][xx],
            decreases 17 - y,
        {
            let mut x: usize = 0;
            while x < 17
                invariant
                    instance.wf(),
                    self.wf(),
                    y < 17,
                    x <= 17,
                    grid_wf(instance@),
                    grid_wf(self@),
                    forall|yy: int, xx: int|
                        0 <= yy < 17 && 0 <= xx < 17 && (yy < y || (yy == y && xx < x))
                            ==> #[trigger] instance@[yy][xx] == self@[yy][xx],
                decreases 17 - x,
            {
                instance.copy(y, x, self);
                x = x + 1;
            }
            y = y + 1;
        }
        proof {
            assert(instance@ =~~= self@);
        }
        instance
    }

    /// A copy of the matrix with the mask pattern XOR-ed over the
    /// mask-eligible region.
    pub fn with_data_mask(&self, data_mask: &DataMask) -> (m: CodeMatrix)
        requires
            self.wf(),
            data_mask.wf(),
        ensures
            m.wf(),
            m@ == masked_grid(self@, data_mask@),
    {
        proof {
            data_mask.lemma_wf_grid();
        }
        let mut matrix = self.clone();

        let mut i: usize = 1;
        while i < 17
            invariant
                matrix.wf(),
                self.wf(),
                data_mask.wf(),
                1 <= i <= 17,
                grid_wf(matrix@),
                grid_wf(self@),
                grid_wf(data_mask@),
                forall|yy: int, xx: int|
                    0 <= yy < 17 && 0 <= xx < 17 ==> #[trigger] matrix@[yy][xx] == (if yy < i
                        && mask_eligible(yy, xx) {
                        self@[yy][xx] ^ data_mask@[yy][xx]
                    } else {
                        self@[yy][xx]
                    }),
            decreases 17 - i,
        {
            let mut j: usize = 1;
            while j < 17
                invariant
                    matrix.wf(),
                    self.wf(),
                    data_mask.wf(),
                    1 <= i < 17,
                    1 <= j <= 17,
                    grid_wf(matrix@),
                    grid_wf(self@),
                    grid_wf(data_mask@),
                    forall|yy: int, xx: int|
                        0 <= yy < 17 && 0 <= xx < 17 ==> #[trigger] matrix@[yy][xx] == (if (yy < i
                            || (yy == i && xx < j)) && mask_eligible(yy, xx) {
                            self@[yy][xx] ^ data_mask@[yy][xx]
                        } else {
                            self@[yy][xx]
                        }),
                decreases 17 - j,
            {
                if i > 8 || j > 8 {
                    let v = matrix.read(i, j) ^ data_mask.read(i, j);
                    proof {
                        lemma_xor_bit(self@[i as int][j as int], data_mask@[i as int][j as int]);
                    }
                    matrix.write(i, j, v);
                }
                j = j + 1;
            }
            i = i + 1;
        }
        proof {
            assert(matrix@ =~~= masked_grid(self@, data_mask@));
        }
        matrix
    }

    /// A copy of the matrix with the 15 format-information bits embedded.
    pub fn with_format_info(&self, format_info: u16) -> (m: CodeMatrix)
        requires
            self.wf(),
        ensures
            m.wf(),
            m@ == format_grid(self@, format_info),
    {
        let mut matrix = self.clone();

        matrix.write(1, 8, format_bit(format_info, 0));
        matrix.write(2, 8, format_bit(format_info, 1));
        matrix.write(3, 8, format_bit(format_info, 2));
        matrix.write(4, 8, format_bit(format_info, 3));
        matrix.write(5, 8, format_bit(format_info, 4));
        matrix.write(6, 8, format_bit(format_info, 5));
        matrix.write(7, 8, format_bit(format_info, 6));
        matrix.write(8, 8, format_bit(format_info, 7));

        matrix.write(8, 7, format_bit(format_info, 8));
        matrix.write(8, 6, format_bit(format_info, 9));
        matrix.write(8, 5, format_bit(format_info, 10));
        matrix.write(8, 4, format_bit(format_info, 11));
        matrix.write(8, 3, format_bit(format_info, 12));
        matrix.write(8, 2, format_bit(format_info, 13));
        matrix.write(8, 1, format_bit(format_info, 14));

        proof {
            assert(matrix@ =~~= format_grid(self@, format_info));
        }
        matrix
    }
}

/// Bit `k` of the format information, as a module value.
fn format_bit(f: u16, k: u16) -> (r: u8)
    requires
        k < 16,
    ensures
        r == fbit(f, k),
        r <= 1,
{
    proof {
        lemma_fbit_le_one(f, k);
    }
    ((f >> k) & 1) as u8
}

impl PatternScoring for CodeMatrix {
    open spec fn right_edge(&self) -> int {
        col_sum(self@, 16, 17)
    }

    open spec fn bottom_edge(&self) -> int {
        row_sum(self@, 16, 17)
    }

    open spec fn scoring_wf(&self) -> bool {
        self.wf()
    }

    fn count_right_edge(&self) -> (r: u8) {
        let mut acc: u8 = 0;
        let mut y: usize = 0;
        while y < 17
            invariant
                self.wf(),
                y <= 17,
                acc <= y,
                acc as int == col_sum(self@, 16, y as int),
            decreases 17 - y,
        {
            acc = acc + self.read(y, 16);
            y = y + 1;
        }
        acc
    }

    fn count_bottom_edge(&self) -> (r: u8) {
        let mut acc: u8 = 0;
        let mut x: usize = 0;
        while x < 17
            invariant
                self.wf(),
                x <= 17,
                acc <= x,
                acc as int == row_sum(self@, 16, x as int),
            decreases 17 - x,
        {
            acc = acc + self.read(16, x);
            x = x + 1;
        }
        acc
    }
}

} // verus!
