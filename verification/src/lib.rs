//! Encoder for the 17-by-17 micro QR symbol of version M4 at error
//! correction level L: packs an alphanumeric string into a fixed 16-byte bit
//! stream, extends it with 8 Reed-Solomon codewords over GF(256), places the
//! 24 codewords on the module grid in boustrophedon blocks, selects the
//! best-scoring of the four data masks, and embeds the matching format
//! information. Every step carries a contract that pins its result down, and
//! the stated algebraic properties of the pipeline are proved alongside.

use vstd::prelude::*;

pub mod alphanumeric_mode;
pub mod bit_block;
mod bit_stream;
pub mod code_matrix;
pub mod data_codewords;
pub mod data_mask;
pub mod error_correction;
pub mod format_info;
pub mod gf_256;
mod grid;
pub mod mask_pattern;
pub mod pattern_scoring;
pub mod symbol_matrix;

pub use bit_block::{BitBlock, DownwardsBlock, UpwardsBlock};
pub use code_matrix::CodeMatrix;
pub use data_mask::DataMask;
pub use error_correction::calculate_error_correction;
pub use gf_256::GF256;
pub use mask_pattern::MaskPattern;
pub use pattern_scoring::PatternScoring;

verus! {

} // verus!
