use vstd::prelude::*;

verus! {

/// The protected 15-bit format word for each mask pattern reference: the
/// symbol-class identifier and mask id, extended with the BCH error-detection
/// bits and XOR-ed with the standard mask constant, precomputed per the
/// published table for this symbol class and level.
pub open spec fn masked_sequence_of(pattern_ref: u8) -> Option<u16> {
    if pattern_ref == 0 {
        Some(0x1735u16)
    } else if pattern_ref == 1 {
        Some(0x1202u16)
    } else if pattern_ref == 2 {
        Some(0x1D5Bu16)
    } else if pattern_ref == 3 {
        Some(0x186Cu16)
    } else {
        None
    }
}

/// Look up the protected format word; `None` for a reference outside 0..=3.
pub fn get_masked_sequence(pattern_ref: u8) -> (r: Option<u16>)
    ensures
        r == masked_sequence_of(pattern_ref),
{
    match pattern_ref {
        0 => Some(0x1735),
        1 => Some(0x1202),
        2 => Some(0x1D5B),
        3 => Some(0x186C),
        _ => None,
    }
}

/// The format word for a valid mask pattern reference.
pub fn encode(pattern_ref: u8) -> (r: u16)
    requires
        pattern_ref <= 3,
    ensures
        Some(r) == masked_sequence_of(pattern_ref),
{
    get_masked_sequence(pattern_ref).unwrap()
}

} // verus!
