use micro_qr::format_info::{encode, get_masked_sequence};

#[test]
fn test_get_masked_sequence_valid_patterns() {
    // Test all valid pattern references
    assert_eq!(get_masked_sequence(0), Some(0x1735));
    assert_eq!(get_masked_sequence(1), Some(0x1202));
    assert_eq!(get_masked_sequence(2), Some(0x1D5B));
    assert_eq!(get_masked_sequence(3), Some(0x186C));
}

#[test]
fn test_get_masked_sequence_invalid_patterns() {
    // Test boundary cases and invalid patterns
    assert_eq!(get_masked_sequence(4), None);
    assert_eq!(get_masked_sequence(255), None);
}

#[test]
fn test_encode_valid_patterns() {
    // Test all valid pattern references
    assert_eq!(encode(0), 0x1735);
    assert_eq!(encode(1), 0x1202);
    assert_eq!(encode(2), 0x1D5B);
    assert_eq!(encode(3), 0x186C);
}
