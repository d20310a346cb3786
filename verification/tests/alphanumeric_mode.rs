use bitstream_io::{BigEndian, BitRead, BitReader};
use micro_qr::alphanumeric_mode::encode;

#[test]
fn test_basic_encoding() {
    let result = encode("HELLO");
    assert_eq!(result.len(), 16);

    // First byte should be 001 for mode, then 00101 for length 5
    assert_eq!(result[0], 0b00100101);

    // Verify pad pattern alternates
    assert_eq!(result[result.len() - 2], 0xEC); // Second to last should be 11101100
    assert_eq!(result[result.len() - 1], 0x11); // Last should be 00010001
}

#[test]
fn test_ac42_encoding() {
    let input = "AC-42";
    let result = encode(input);

    // Expected encoding:
    // Mode indicator: 001 (3 bits)
    // Character count: 00101 (5 = 5 bits)
    // First pair "AC": 10*45 + 12 = 462 -> 00111001110 (11 bits)
    // Second pair "-4": 41*45 + 4 = 1849 -> 11100111001 (11 bits)
    // Last char "2": 2 -> 000010 (6 bits)
    // Total data bits: 3 + 5 + 11 + 11 + 6 = 36 bits

    let mut cursor = std::io::Cursor::new(&result);
    let mut reader = BitReader::endian(&mut cursor, BigEndian);

    // Check mode and count
    let mode = reader.read::<3, u8>().unwrap();
    assert_eq!(mode, 0b001, "Mode indicator should be 001");

    let count = reader.read::<5, u8>().unwrap();
    assert_eq!(count, 5, "Character count should be 5");

    // Check first pair "AC"
    let ac_value = reader.read::<11, u16>().unwrap();
    assert_eq!(ac_value, 462, "AC should encode to 462 (10*45 + 12)");

    // Check second pair "-4"
    let dash4_value = reader.read::<11, u16>().unwrap();
    assert_eq!(dash4_value, 1849, "'-4' should encode to 1849 (41*45 + 4)");

    // Check last char "2"
    let two_value = reader.read::<6, u8>().unwrap();
    assert_eq!(two_value, 2, "2 should encode to 2");

    // Check terminator (should have room for full 9 bits)
    let terminator = reader.read::<9, u16>().unwrap();
    assert_eq!(terminator, 0, "Terminator should be all zeros");

    // Check padding bits
    let padding = reader.read::<3, u8>().unwrap();
    assert_eq!(padding, 0, "Padding bits should be all zeros");

    // Check first padding codeword
    let padding_codeword1 = reader.read::<8, u8>().unwrap();
    assert_eq!(
        padding_codeword1, 0xEC,
        "First padding codeword should be 11101100"
    );

    // Check second padding codeword
    let padding_codeword2 = reader.read::<8, u8>().unwrap();
    assert_eq!(
        padding_codeword2, 0x11,
        "Second padding codeword should be 00010001"
    );
}

#[test]
fn test_partial_terminator() {
    // 20 chars = 3 + 5 + (10 * 11) = 118 bits
    // Leaves 10 bits: 9-bit terminator + 1 padding bit
    let result = encode("12345678901234567890");

    let mut cursor = std::io::Cursor::new(&result);
    let mut reader = BitReader::endian(&mut cursor, BigEndian);

    // Skip the data bits
    reader.skip(118).unwrap();

    // Read the terminator (9 bits)
    let terminator = reader.read::<9, u16>().unwrap();
    assert_eq!(terminator, 0, "Terminator bits should be all zeros");

    // Read the padding bit
    let padding = reader.read::<1, u8>().unwrap();
    assert_eq!(padding, 0, "Padding bit should be zero");
}

#[test]
fn test_truncated_terminator() {
    let input = "ABCDEFGHIJKLMNOPQRSTU"; // 21 chars
    let result = encode(input);

    // Calculate bit usage:
    // Mode indicator:    3 bits
    // Character count:   5 bits
    // Full pairs: 10 x 11 bits = 110 bits
    // Last char:         6 bits
    // Total:           124 bits
    // Leaving:          4 bits for truncated terminator

    let mut cursor = std::io::Cursor::new(&result);
    let mut reader = BitReader::endian(&mut cursor, BigEndian);

    // Skip the data bits
    reader.skip(124).unwrap();

    // Read the truncated terminator (4 bits)
    let terminator = reader.read::<4, u8>().unwrap();
    assert_eq!(
        terminator, 0,
        "Truncated terminator bits should be all zeros"
    );
}

#[test]
fn test_alphanumeric_char_mapping() {
    // Character mappings according to the alphanumeric table
    let test_cases = [
        ('0', 0),
        ('1', 1),
        ('2', 2),
        ('3', 3),
        ('4', 4),
        ('5', 5),
        ('6', 6),
        ('7', 7),
        ('8', 8),
        ('9', 9),
        ('A', 10),
        ('B', 11),
        ('C', 12),
        ('D', 13),
        ('E', 14),
        ('F', 15),
        ('G', 16),
        ('H', 17),
        ('I', 18),
        ('J', 19),
        ('K', 20),
        ('L', 21),
        ('M', 22),
        ('N', 23),
        ('O', 24),
        ('P', 25),
        ('Q', 26),
        ('R', 27),
        ('S', 28),
        ('T', 29),
        ('U', 30),
        ('V', 31),
        ('W', 32),
        ('X', 33),
        ('Y', 34),
        ('Z', 35),
        (' ', 36),
        ('$', 37),
        ('%', 38),
        ('*', 39),
        ('+', 40),
        ('-', 41),
        ('.', 42),
        ('/', 43),
        (':', 44),
    ];

    // Test individual character values
    for (input_char, expected_value) in test_cases {
        let input = input_char.to_string();
        let result = encode(&input);

        let mut cursor = std::io::Cursor::new(&result);
        let mut reader = BitReader::endian(&mut cursor, BigEndian);

        // Skip mode (3 bits) and count (5 bits)
        reader.skip(8).unwrap();

        // Read 6 bits for single character
        let value = reader.read::<6, u8>().unwrap();
        assert_eq!(
            value, expected_value,
            "Character '{}' should map to value {} but got {}",
            input_char, expected_value, value
        );
    }
}

#[test]
fn test_alphanumeric_pair_mapping() {
    // Test pair encoding: V = 45 x V1 + V2
    let test_pairs = [
        ("AB", 10 * 45 + 11), // A=10, B=11
        ("12", 1 * 45 + 2),   // 1=1, 2=2
        ("Z ", 35 * 45 + 36), // Z=35, space=36
        ("$%", 37 * 45 + 38), // $=37, %=38
        (":/", 44 * 45 + 43), // :=44, /=43
    ];

    for (pair, expected_value) in test_pairs {
        let result = encode(pair);

        let mut cursor = std::io::Cursor::new(&result);
        let mut reader = BitReader::endian(&mut cursor, BigEndian);

        // Skip mode (3 bits) and count (5 bits)
        reader.skip(8).unwrap();

        // Read 11 bits for pair
        let value = reader.read::<11, u16>().unwrap();
        assert_eq!(
            value, expected_value,
            "Pair '{}' should encode to value {} but got {}",
            pair, expected_value, value
        );
    }
}

#[test]
fn test_mixed_pair_and_char_encoding() {
    // Test cases with 3 characters (one pair + one char)
    let test_cases = [
        (
            "ABC", // A(10) B(11) paired = 461, C(12) single
            vec![
                (11, 461), // pair AB: 10 * 45 + 11 = 461 (11 bits)
                (6, 12),   // char C: 12 (6 bits)
            ],
        ),
        (
            "123", // 1(1) 2(2) paired = 47, 3(3) single
            vec![
                (11, 47), // pair 12: 1 * 45 + 2 = 47
                (6, 3),   // char 3: 3
            ],
        ),
        (
            "Z $", // Z(35) space(36) paired = 1611, $(37) single
            vec![
                (11, 1611), // pair Z : 35 * 45 + 36 = 1611
                (6, 37),    // char $: 37
            ],
        ),
    ];

    for (input, expected_values) in test_cases {
        let result = encode(input);

        let mut cursor = std::io::Cursor::new(&result);
        let mut reader = BitReader::endian(&mut cursor, BigEndian);

        // Verify mode (should be 001 for alphanumeric)
        let mode = reader.read::<3, u8>().unwrap();
        assert_eq!(mode, 0b001, "Mode indicator should be 001");

        // Verify count (should be 3)
        let count = reader.read::<5, u8>().unwrap();
        assert_eq!(count, 3, "Character count should be 3");

        // Verify each value
        for (bit_count, expected_value) in expected_values {
            let value = reader.read_var::<u16>(bit_count).unwrap();
            assert_eq!(
                value, expected_value,
                "For input '{}', expected value {} but got {}",
                input, expected_value, value
            );
        }
    }
}
