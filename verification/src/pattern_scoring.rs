use vstd::prelude::*;

verus! {

/// The two-edge score: the smaller edge count weighted by 16 plus the larger.
pub open spec fn pattern_score_of(right: int, bottom: int) -> int {
    if right <= bottom {
        right * 16 + bottom
    } else {
        bottom * 16 + right
    }
}

/// Scoring of a masked matrix by its dark-module counts along the rightmost
/// column and the bottom row.
pub trait PatternScoring {
    /// How many dark modules the rightmost column holds.
    spec fn right_edge(&self) -> int;

    /// How many dark modules the bottom row holds.
    spec fn bottom_edge(&self) -> int;

    /// What the scored value must satisfy for the counts to be meaningful.
    spec fn scoring_wf(&self) -> bool;

    fn count_right_edge(&self) -> (r: u8)
        requires
            self.scoring_wf(),
        ensures
            r as int == self.right_edge(),
            r <= 17,
    ;

    fn count_bottom_edge(&self) -> (r: u8)
        requires
            self.scoring_wf(),
        ensures
            r as int == self.bottom_edge(),
            r <= 17,
    ;

    fn pattern_score(&self) -> (score: u16)
        requires
            self.scoring_wf(),
        ensures
            score as int == pattern_score_of(self.right_edge(), self.bottom_edge()),
    {
        let right_edge = self.count_right_edge() as u16;
        let bottom_edge = self.count_bottom_edge() as u16;

        if right_edge <= bottom_edge {
            right_edge * 16 + bottom_edge
        } else {
            bottom_edge * 16 + right_edge
        }
    }
}

} // verus!
