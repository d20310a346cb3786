use vstd::prelude::*;

use crate::alphanumeric_mode;
use crate::alphanumeric_mode::{encoded_bytes, valid_input};
use crate::error_correction;
use crate::error_correction::rs_remainder;
use crate::gf_256::GF256;

verus! {

/// The generator-polynomial coefficients for the 8 error-correction
/// codewords of this symbol class, highest degree first: the expansion of
/// the degree-8 generator polynomial, supplied as fixed configuration data.
pub open spec fn gen_coefficients() -> Seq<u8> {
    seq![0x01u8, 0xffu8, 0x0bu8, 0x51u8, 0x36u8, 0xefu8, 0xadu8, 0xc8u8, 0x18u8]
}

/// The full 24 codewords of an input: 16 data codewords followed by their 8
/// error-correction codewords.
pub open spec fn data_codewords_of(s: Seq<char>) -> Seq<u8> {
    encoded_bytes(s) + rs_remainder(encoded_bytes(s), gen_coefficients(), 8)
}

/// Encode the input and append its error-correction codewords.
pub fn generate(input: &str) -> (result: Vec<u8>)
    requires
        valid_input(input@),
    ensures
        result@ == data_codewords_of(input@),
        result@.len() == 24,
{
    let gf_256 = GF256::new();
    let encoded_data = encode_data(input);
    let ec_codewords = gen_ec_codewords(encoded_data.as_slice(), &gf_256);

    combine_data(encoded_data.as_slice(), ec_codewords.as_slice())
}

fn encode_data(data: &str) -> (r: Vec<u8>)
    requires
        valid_input(data@),
    ensures
        r@ == encoded_bytes(data@),
        r@.len() == 16,
{
    alphanumeric_mode::encode(data)
}

fn gen_ec_codewords(input: &[u8], gf_256: &GF256) -> (r: Vec<u8>)
    requires
        gf_256.wf(),
    ensures
        r@ == rs_remainder(input@, gen_coefficients(), 8),
        r@.len() == 8,
{
    let mut coeffs: Vec<u8> = Vec::new();
    coeffs.push(0x01);
    coeffs.push(0xff);
    coeffs.push(0x0b);
    coeffs.push(0x51);
    coeffs.push(0x36);
    coeffs.push(0xef);
    coeffs.push(0xad);
    coeffs.push(0xc8);
    coeffs.push(0x18);
    proof {
        assert(coeffs@ =~= gen_coefficients());
    }

    error_correction::calculate_error_correction(input, coeffs.as_slice(), gf_256, 8)
}

fn combine_data(encoded_data: &[u8], ec_codewords: &[u8]) -> (r: Vec<u8>)
    ensures
        r@ == encoded_data@ + ec_codewords@,
{
    let mut r: Vec<u8> = Vec::new();
    let mut i: usize = 0;
    while i < encoded_data.len()
        invariant
            i <= encoded_data@.len(),
            r@ == encoded_data@.take(i as int),
        decreases encoded_data@.len() - i,
    {
        r.push(encoded_data[i]);
        i = i + 1;
    }
    proof {
        assert(encoded_data@.take(encoded_data@.len() as int) =~= encoded_data@);
    }
    let mut j: usize = 0;
    while j < ec_codewords.len()
        invariant
            j <= ec_codewords@.len(),
            r@ == encoded_data@ + ec_codewords@.take(j as int),
        decreases ec_codewords@.len() - j,
    {
        r.push(ec_codewords[j]);
        proof {
            assert(r@ =~= encoded_data@ + ec_codewords@.take(j + 1));
        }
        j = j + 1;
    }
    proof {
        assert(ec_codewords@.take(ec_codewords@.len() as int) =~= ec_codewords@);
    }
    r
}

} // verus!
