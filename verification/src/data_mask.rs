use vstd::prelude::*;

use crate::code_matrix::{col_sum, masked_grid, row_sum, CodeMatrix};
use crate::grid::{grid_wf, grid_write, zero_grid, Grid};
use crate::mask_pattern::{fill_mask_grid, mask_grid};
use crate::pattern_scoring::{pattern_score_of, PatternScoring};

verus! {

/// The two-edge score a matrix earns when masked with pattern `r`.
pub open spec fn mask_score(g: Seq<Seq<u8>>, r: int) -> int {
    pattern_score_of(
        col_sum(masked_grid(g, mask_grid(r)), 16, 17),
        row_sum(masked_grid(g, mask_grid(r)), 16, 17),
    )
}

/// The pattern reference the selector chooses for a matrix: the first of the
/// four patterns whose score no later pattern exceeds.
pub open spec fn best_ref(g: Seq<Seq<u8>>) -> u8 {
    if mask_score(g, 0) >= mask_score(g, 1) && mask_score(g, 0) >= mask_score(g, 2) && mask_score(
        g,
        0,
    ) >= mask_score(g, 3) {
        0
    } else if mask_score(g, 1) >= mask_score(g, 2) && mask_score(g, 1) >= mask_score(g, 3) {
        1
    } else if mask_score(g, 2) >= mask_score(g, 3) {
        2
    } else {
        3
    }
}

/// The selected pattern scores at least as high as every candidate, and
/// strictly higher than every candidate with a lower index: ties go to the
/// lowest index.
pub proof fn lemma_best_ref_is_best(g: Seq<Seq<u8>>)
    ensures
        best_ref(g) < 4,
        forall|r: int| 0 <= r < 4 ==> #[trigger] mask_score(g, r) <= mask_score(g, best_ref(g) as int),
        forall|r: int| 0 <= r < best_ref(g) ==> #[trigger] mask_score(g, r) < mask_score(g, best_ref(g) as int),
{
}

/// Selecting a mask is deterministic: the chosen pattern reference is a
/// function of the matrix alone, so repeated selections on an identical
/// matrix agree.
pub proof fn lemma_best_ref_deterministic(g: Seq<Seq<u8>>, r1: u8, r2: u8)
    requires
        r1 == best_ref(g),
        r2 == best_ref(g),
    ensures
        r1 == r2,
{
}

/// A mask grid together with the pattern reference it was generated from.
pub struct DataMask {
    grid: Grid,
    pattern_reference: u8,
}

impl View for DataMask {
    type V = Seq<Seq<u8>>;

    closed spec fn view(&self) -> Seq<Seq<u8>> {
        self.grid@
    }
}

impl DataMask {
    pub closed spec fn wf(self) -> bool {
        self.grid.wf() && grid_wf(self@)
    }

    /// A well-formed mask is a well-formed grid when seen through its view.
    pub proof fn lemma_wf_grid(&self)
        requires
            self.wf(),
        ensures
            grid_wf(self@),
    {
    }

    /// The pattern reference this mask carries.
    pub closed spec fn pattern_id(self) -> u8 {
        self.pattern_reference
    }

    pub fn pattern_ref(&self) -> (r: u8)
        ensures
            r == self.pattern_id(),
    {
        self.pattern_reference
    }

    pub fn new(pattern_reference: u8) -> (m: DataMask)
        ensures
            m.wf(),
            m@ == zero_grid(),
            grid_wf(m@),
            m.pattern_id() == pattern_reference,
    {
        DataMask { grid: Grid::new(), pattern_reference }
    }

    /// Choose the mask whose application scores highest, ties to the lowest
    /// pattern index.
    pub fn best_pattern(matrix: &CodeMatrix) -> (best: DataMask)
        requires
            matrix.wf(),
        ensures
            best.wf(),
            best.pattern_id() == best_ref(matrix@),
            best@ == mask_grid(best_ref(matrix@) as int),
    {
        let p0 = Self::pattern_00();
        let p1 = Self::pattern_01();
        let p2 = Self::pattern_10();
        let p3 = Self::pattern_11();

        let s0 = matrix.with_data_mask(&p0).pattern_score();
        let s1 = matrix.with_data_mask(&p1).pattern_score();
        let s2 = matrix.with_data_mask(&p2).pattern_score();
        let s3 = matrix.with_data_mask(&p3).pattern_score();

        if s0 >= s1 && s0 >= s2 && s0 >= s3 {
            p0
        } else if s1 >= s2 && s1 >= s3 {
            p1
        } else if s2 >= s3 {
            p2
        } else {
            p3
        }
    }

    pub fn pattern_00() -> (m: DataMask)
        ensures
            m.wf(),
            m@ == mask_grid(0),
            m.pattern_id() == 0,
    {
        let mut m = Self::new(0);
        fill_mask_grid(&mut m.grid, 0);
        m
    }

    pub fn pattern_01() -> (m: DataMask)
        ensures
            m.wf(),
            m@ == mask_grid(1),
            m.pattern_id() == 1,
    {
        let mut m = Self::new(1);
        fill_mask_grid(&mut m.grid, 1);
        m
    }

    pub fn pattern_10() -> (m: DataMask)
        ensures
            m.wf(),
            m@ == mask_grid(2),
            m.pattern_id() == 2,
    {
        let mut m = Self::new(2);
        fill_mask_grid(&mut m.grid, 2);
        m
    }

    pub fn pattern_11() -> (m: DataMask)
        ensures
            m.wf(),
            m@ == mask_grid(3),
            m.pattern_id() == 3,
    {
        let mut m = Self::new(3);
        fill_mask_grid(&mut m.grid, 3);
        m
    }

    pub fn read(&self, y: usize, x: usize) -> (r: u8)
        requires
            self.wf(),
            y < 17,
            x < 17,
        ensures
            r == self@[y as int][x as int],
            r <= 1,
    {
        self.grid.read(y, x)
    }

    pub fn write(&mut self, y: usize, x: usize, value: u8)
        requires
            old(self).wf(),
            y < 17,
            x < 17,
            value <= 1,
        ensures
            final(self).wf(),
            final(self)@ == grid_write(old(self)@, y as int, x as int, value),
            final(self).pattern_id() == old(self).pattern_id(),
    {
        self.grid.write(y, x, value);
    }
}

} // verus!
