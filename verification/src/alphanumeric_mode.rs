use vstd::prelude::*;

use crate::bit_stream::{bits_of, bytes_of_bits, lemma_bpow_values, BitStream};
use vstd::string::StrSliceExecFns;

verus! {

/// The index of a character in the 45-symbol alphanumeric alphabet:
/// digits 0-9, letters A-Z, then space $ % * + - . / : in that order.
pub open spec fn char_value(c: char) -> Option<u8> {
    let u = c as u32;
    if '0' as u32 <= u <= '9' as u32 {
        Some((u - '0' as u32) as u8)
    } else if 'A' as u32 <= u <= 'Z' as u32 {
        Some((u - 'A' as u32 + 10) as u8)
    } else if u == ' ' as u32 {
        Some(36u8)
    } else if u == '$' as u32 {
        Some(37u8)
    } else if u == '%' as u32 {
        Some(38u8)
    } else if u == '*' as u32 {
        Some(39u8)
    } else if u == '+' as u32 {
        Some(40u8)
    } else if u == '-' as u32 {
        Some(41u8)
    } else if u == '.' as u32 {
        Some(42u8)
    } else if u == '/' as u32 {
        Some(43u8)
    } else if u == ':' as u32 {
        Some(44u8)
    } else {
        None
    }
}

/// The alphabet index as an integer, for characters in the alphabet.
pub open spec fn char_val(c: char) -> int {
    char_value(c).unwrap() as int
}

/// A string whose characters all lie in the alphabet and which fits the
/// symbol's 21-character capacity.
pub open spec fn valid_input(s: Seq<char>) -> bool {
    s.len() <= 21 && forall|i: int| 0 <= i < s.len() ==> (#[trigger] char_value(s[i])).is_some()
}

pub fn get_alphanumeric_value(c: char) -> (r: Option<u8>)
    ensures
        r == char_value(c),
{
    let u = c as u32;
    if '0' as u32 <= u && u <= '9' as u32 {
        Some((u - '0' as u32) as u8)
    } else if 'A' as u32 <= u && u <= 'Z' as u32 {
        Some((u - 'A' as u32 + 10) as u8)
    } else if u == ' ' as u32 {
        Some(36)
    } else if u == '$' as u32 {
        Some(37)
    } else if u == '%' as u32 {
        Some(38)
    } else if u == '*' as u32 {
        Some(39)
    } else if u == '+' as u32 {
        Some(40)
    } else if u == '-' as u32 {
        Some(41)
    } else if u == '.' as u32 {
        Some(42)
    } else if u == '/' as u32 {
        Some(43)
    } else if u == ':' as u32 {
        Some(44)
    } else {
        None
    }
}

/// Every alphabet index is at most 44.
pub proof fn lemma_char_value_bound(c: char)
    ensures
        char_value(c).is_some() ==> 0 <= char_val(c) <= 44,
{
}

/// The data bits of the characters themselves: each full pair packed as
/// `45 * first + second` in 11 bits, a trailing single character in 6 bits.
pub open spec fn payload_bits(s: Seq<char>) -> Seq<bool>
    decreases s.len(),
{
    if s.len() == 0 {
        Seq::empty()
    } else if s.len() == 1 {
        bits_of(char_val(s[0]), 6)
    } else {
        bits_of(45 * char_val(s[0]) + char_val(s[1]), 11) + payload_bits(s.skip(2))
    }
}

/// The full message: the 3-bit alphanumeric mode indicator `001`, the 5-bit
/// character count, then the payload.
pub open spec fn message_bits(s: Seq<char>) -> Seq<bool> {
    bits_of(1, 3) + bits_of(s.len() as int, 5) + payload_bits(s)
}

/// The message padded out to the 128-bit capacity: a 9-bit zero terminator
/// and zero bits to the byte boundary where at least 9 bits remain, else
/// exactly the remaining zero bits.
pub open spec fn padded_bits(s: Seq<char>) -> Seq<bool> {
    let m = message_bits(s);
    if m.len() + 9 <= 128 {
        let m2 = m + bits_of(0, 9);
        m2 + bits_of(0, ((8 - m2.len() % 8) % 8) as nat)
    } else {
        m + bits_of(0, (128 - m.len()) as nat)
    }
}

/// The alternating filler codewords appended after the message bytes.
pub open spec fn pad_codewords(k: nat) -> Seq<u8> {
    Seq::new(
        k,
        |i: int|
            if i % 2 == 0 {
                0xECu8
            } else {
                0x11u8
            },
    )
}

/// The 16 data codewords of an input string.
pub open spec fn encoded_bytes(s: Seq<char>) -> Seq<u8> {
    let b = bytes_of_bits(padded_bits(s));
    b + pad_codewords((16 - b.len()) as nat)
}

/// The payload occupies 11 bits per full pair and 6 for a trailing single.
pub proof fn lemma_payload_len(s: Seq<char>)
    ensures
        payload_bits(s).len() == 11 * (s.len() as int / 2) + (if s.len() % 2 == 1 {
            6int
        } else {
            0int
        }),
    decreases s.len(),
{
    if s.len() >= 2 {
        lemma_payload_len(s.skip(2));
    }
}

/// Encode a validated string into the fixed 16 data codewords.
pub fn encode(input: &str) -> (result: Vec<u8>)
    requires
        valid_input(input@),
    ensures
        result@ == encoded_bytes(input@),
        result@.len() == 16,
{
    let ghost s = input@;
    let length = input.unicode_len();
    let mut writer = BitStream::new();

    proof {
        lemma_bpow_values();
        lemma_payload_len(s);
    }

    // Mode indicator (001 for alphanumeric in this symbol class) and the
    // 5-bit character count.
    writer.write(3, 0b001);
    writer.write(5, length as u16);

    proof {
        assert(writer@ + payload_bits(s.skip(0)) =~= message_bits(s)) by {
            assert(s.skip(0) =~= s);
        };
    }

    // Encode pairs of characters, then a trailing single character.
    let mut i: usize = 0;
    while i + 1 < length
        invariant
            s == input@,
            valid_input(s),
            length == s.len(),
            i <= length,
            i % 2 == 0,
            writer@ + payload_bits(s.skip(i as int)) == message_bits(s),
            writer@.len() + payload_bits(s.skip(i as int)).len() <= 124,
        decreases length - i,
    {
        let c1 = input.get_char(i);
        let c2 = input.get_char(i + 1);
        let val1 = get_alphanumeric_value(c1).unwrap() as u16;
        let val2 = get_alphanumeric_value(c2).unwrap() as u16;
        proof {
            lemma_char_value_bound(s[i as int]);
            lemma_char_value_bound(s[i as int + 1]);
            lemma_bpow_values();
        }
        let pair_value = val1 * 45 + val2;

        proof {
            let tail = s.skip(i as int);
            assert(tail[0] == s[i as int]);
            assert(tail[1] == s[i as int + 1]);
            assert(tail.skip(2) =~= s.skip(i + 2));
            lemma_payload_len(s.skip(i + 2));
        }
        writer.write(11, pair_value);
        i = i + 2;
    }

    if i < length {
        let c = input.get_char(i);
        let val = get_alphanumeric_value(c).unwrap();
        proof {
            lemma_char_value_bound(s[i as int]);
            lemma_bpow_values();
            assert(s.skip(i as int).len() == 1);
        }
        writer.write(6, val as u16);
        i = i + 1;
    }

    proof {
        assert(s.skip(i as int) =~= Seq::<char>::empty());
        assert(writer@ + payload_bits(s.skip(i as int)) =~= writer@);
        assert(writer@ == message_bits(s));
        lemma_payload_len(s);
        lemma_bpow_values();
    }

    // Terminator and zero padding up to the 128-bit capacity.
    let bits_written = writer.len();
    if bits_written < 128 {
        let remaining_bits = 128 - bits_written;

        if remaining_bits >= 9 {
            writer.write(9, 0);
            writer.byte_align();
        } else {
            writer.write(remaining_bits, 0);
        }
    }

    proof {
        assert(writer@ == padded_bits(s));
        assert(writer@.len() % 8 == 0);
        assert(writer@.len() <= 128);
    }

    let mut result = writer.to_bytes();
    let ghost base = bytes_of_bits(padded_bits(s)).len();

    // Fill the remaining codewords with the alternating filler bytes.
    let mut pad_index: usize = 0;
    while result.len() < 16
        invariant
            base == bytes_of_bits(padded_bits(s)).len(),
            base <= result@.len() <= 16,
            result@ == bytes_of_bits(padded_bits(s)) + pad_codewords((result@.len() - base) as nat),
            pad_index == (result@.len() - base) % 2,
        decreases 16 - result@.len(),
    {
        if pad_index == 0 {
            result.push(0xEC);
        } else {
            result.push(0x11);
        }
        proof {
            assert(result@ =~= bytes_of_bits(padded_bits(s)) + pad_codewords(
                (result@.len() - base) as nat,
            ));
        }
        pad_index = (pad_index + 1) % 2;
    }

    proof {
        assert(result@ =~= encoded_bytes(s));
    }

    result
}

/// Encoding a single alphabet character yields the mode bits `001`, the
/// count `00001`, and the character's 6-bit alphabet index.
pub proof fn lemma_single_char_bits(c: char)
    requires
        char_value(c).is_some(),
    ensures
        message_bits(seq![c]) == bits_of(1, 3) + bits_of(1, 5) + bits_of(char_val(c), 6),
{
    assert(payload_bits(seq![c]) == bits_of(char_val(c), 6));
}

/// Encoding a pair of alphabet characters yields an 11-bit value equal to
/// 45 times the first character's index plus the second's.
pub proof fn lemma_pair_bits(c1: char, c2: char)
    requires
        char_value(c1).is_some(),
        char_value(c2).is_some(),
    ensures
        message_bits(seq![c1, c2]) == bits_of(1, 3) + bits_of(2, 5) + bits_of(
            45 * char_val(c1) + char_val(c2),
            11,
        ),
{
    let s = seq![c1, c2];
    assert(s[0] == c1);
    assert(s[1] == c2);
    assert(s.skip(2) =~= Seq::<char>::empty());
    assert(payload_bits(s) == bits_of(45 * char_val(c1) + char_val(c2), 11) + payload_bits(
        s.skip(2),
    ));
    assert(payload_bits(s.skip(2)) == Seq::<bool>::empty());
    assert(payload_bits(s) =~= bits_of(45 * char_val(c1) + char_val(c2), 11));
    assert(message_bits(s) =~= bits_of(1, 3) + bits_of(2, 5) + bits_of(
        45 * char_val(c1) + char_val(c2),
        11,
    ));
}

} // verus!
