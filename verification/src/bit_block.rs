use vstd::prelude::*;

verus! {

/// Bit `k` of a codeword byte, as 0 or 1.
pub open spec fn cw_bit(cw: u8, k: u8) -> u8 {
    (cw >> k) & 1
}

pub proof fn lemma_cw_bit_le_one(cw: u8, k: u8)
    by (bit_vector)
    ensures
        cw_bit(cw, k) <= 1,
{
}

/// A 4-row by 2-column window holding the 8 bits of one codeword.
pub trait BitBlock: Sized {
    /// Which codeword bit the cell at row `y`, column `x` holds.
    spec fn bit_at(&self, y: int, x: int) -> u8;

    fn value_at(&self, y: usize, x: usize) -> (r: u8)
        requires
            y < 4,
            x < 2,
        ensures
            r == self.bit_at(y as int, x as int),
            r <= 1,
    ;
}

/// A block traversed upward: the codeword's low bits sit in the bottom row
/// and its high bits in the top row.
pub struct UpwardsBlock {
    codeword: u8,
}

impl BitBlock for UpwardsBlock {
    closed spec fn bit_at(&self, y: int, x: int) -> u8 {
        cw_bit(self.codeword, (2 * y + x) as u8)
    }

    fn value_at(&self, y: usize, x: usize) -> (r: u8) {
        let k = (2 * y + x) as u8;
        proof {
            lemma_cw_bit_le_one(self.codeword, k);
        }
        (self.codeword >> k) & 1
    }
}

impl UpwardsBlock {
    pub fn new(input: u8) -> (b: UpwardsBlock)
        ensures
            forall|y: int, x: int|
                0 <= y < 4 && 0 <= x < 2 ==> b.bit_at(y, x) == cw_bit(input, (2 * y + x) as u8),
    {
        UpwardsBlock { codeword: input }
    }
}

/// A block traversed downward: the mapping of rows to codeword bits is the
/// vertical mirror of the upward block.
pub struct DownwardsBlock {
    codeword: u8,
}

impl BitBlock for DownwardsBlock {
    closed spec fn bit_at(&self, y: int, x: int) -> u8 {
        cw_bit(self.codeword, (2 * (3 - y) + x) as u8)
    }

    fn value_at(&self, y: usize, x: usize) -> (r: u8) {
        let k = (2 * (3 - y) + x) as u8;
        proof {
            lemma_cw_bit_le_one(self.codeword, k);
        }
        (self.codeword >> k) & 1
    }
}

impl DownwardsBlock {
    pub fn new(input: u8) -> (b: DownwardsBlock)
        ensures
            forall|y: int, x: int|
                0 <= y < 4 && 0 <= x < 2 ==> b.bit_at(y, x) == cw_bit(
                    input,
                    (2 * (3 - y) + x) as u8,
                ),
    {
        DownwardsBlock { codeword: input }
    }
}

} // verus!
