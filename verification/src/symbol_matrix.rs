use vstd::prelude::*;

use crate::code_matrix::{format_grid, masked_grid, with_data_grid, CodeMatrix};
use crate::data_mask::{best_ref, DataMask};
use crate::format_info;
use crate::format_info::masked_sequence_of;
use crate::mask_pattern::mask_grid;

verus! {

/// The finished symbol for 24 data codewords: the codewords placed over the
/// fixed function pattern, the best-scoring mask applied, and that mask's
/// format information embedded.
pub open spec fn symbol_grid(data: Seq<u8>) -> Seq<Seq<u8>> {
    let placed = with_data_grid(data);
    let r = best_ref(placed);
    let masked = masked_grid(placed, mask_grid(r as int));
    format_grid(masked, masked_sequence_of(r).unwrap())
}

/// Build the final module grid from the 24 codewords.
pub fn generate(data_codewords: &[u8]) -> (m: CodeMatrix)
    requires
        data_codewords@.len() >= 24,
    ensures
        m.wf(),
        m@ == symbol_grid(data_codewords@),
{
    let data_matrix = CodeMatrix::with_data(data_codewords);
    let data_mask = DataMask::best_pattern(&data_matrix);

    let masked_matrix = data_matrix.with_data_mask(&data_mask);
    let format_info = format_info::encode(data_mask.pattern_ref());

    masked_matrix.with_format_info(format_info)
}

} // verus!
