use vstd::prelude::*;

use crate::gf_256::{gf_mul, GF256};

verus! {

/// One shift of the linear feedback register: XOR the incoming codeword into
/// the register head to get the feedback value, move every cell up one place
/// while folding in the feedback scaled by the matching generator
/// coefficient, and refill the last cell.
pub open spec fn rs_step(reg: Seq<u8>, byte: u8, coeffs: Seq<u8>) -> Seq<u8> {
    let fb = (byte ^ reg[0]) as u16;
    Seq::new(
        reg.len(),
        |i: int|
            if i < reg.len() - 1 {
                reg[i + 1] ^ gf_mul(fb, coeffs[i + 1] as u16)
            } else {
                gf_mul(fb, coeffs[reg.len() as int] as u16)
            },
    )
}

/// The register contents after feeding the whole input through the division
/// circuit, starting from an all-zero register of `k` cells: the Reed-Solomon
/// remainder, i.e. the error-correction codewords.
pub open spec fn rs_remainder(input: Seq<u8>, coeffs: Seq<u8>, k: nat) -> Seq<u8>
    decreases input.len(),
{
    if input.len() == 0 {
        Seq::new(k, |i: int| 0u8)
    } else {
        rs_step(rs_remainder(input.drop_last(), coeffs, k), input.last(), coeffs)
    }
}

/// Systematic Reed-Solomon division: consume each data codeword in order and
/// return the `number_of_codewords` error-correction codewords left in the
/// feedback register.
pub fn calculate_error_correction(
    encoded_input: &[u8],
    coefficients: &[u8],
    galois_field: &GF256,
    number_of_codewords: usize,
) -> (result: Vec<u8>)
    requires
        galois_field.wf(),
        number_of_codewords >= 1,
        coefficients@.len() == number_of_codewords + 1,
    ensures
        result@ == rs_remainder(encoded_input@, coefficients@, number_of_codewords as nat),
        result@.len() == number_of_codewords,
{
    let mut registers: Vec<u8> = Vec::new();
    while registers.len() < number_of_codewords
        invariant
            registers@.len() <= number_of_codewords,
            forall|j: int| 0 <= j < registers@.len() ==> registers@[j] == 0u8,
        decreases number_of_codewords - registers@.len(),
    {
        registers.push(0);
    }
    let length = registers.len();

    proof {
        assert(registers@ =~= rs_remainder(encoded_input@.take(0), coefficients@,
            number_of_codewords as nat));
    }

    let mut n: usize = 0;
    while n < encoded_input.len()
        invariant
            n <= encoded_input@.len(),
            length == number_of_codewords,
            1 <= number_of_codewords,
            coefficients@.len() == number_of_codewords + 1,
            galois_field.wf(),
            registers@.len() == length,
            registers@ == rs_remainder(encoded_input@.take(n as int), coefficients@,
                number_of_codewords as nat),
        decreases encoded_input@.len() - n,
    {
        let input_byte = encoded_input[n];
        let feedback_byte = (input_byte ^ registers[0]) as usize;
        let ghost reg0 = registers@;
        let ghost stepped = rs_step(reg0, input_byte, coefficients@);

        let mut i: usize = 0;
        while i < length - 1
            invariant
                i <= length - 1,
                length >= 1,
                coefficients@.len() == length + 1,
                galois_field.wf(),
                registers@.len() == length,
                reg0.len() == length,
                feedback_byte < 256,
                feedback_byte == (input_byte ^ reg0[0]) as usize,
                stepped == rs_step(reg0, input_byte, coefficients@),
                forall|j: int| 0 <= j < i ==> registers@[j] == stepped[j],
                forall|j: int| i <= j < length ==> registers@[j] == reg0[j],
            decreases length - i,
        {
            let v = registers[i + 1] ^ galois_field.multiply(
                feedback_byte,
                coefficients[i + 1] as usize,
            );
            registers.set(i, v);
            i = i + 1;
        }

        let last = galois_field.multiply(feedback_byte, coefficients[length] as usize);
        registers.set(length - 1, last);

        proof {
            assert(registers@ =~= stepped);
            assert(encoded_input@.take(n + 1).drop_last() =~= encoded_input@.take(n as int));
            assert(encoded_input@.take(n + 1).last() == input_byte);
        }
        n = n + 1;
    }

    proof {
        assert(encoded_input@.take(n as int) =~= encoded_input@);
    }

    registers
}

/// Feeding nothing but zero codewords through the register leaves every cell
/// zero: the error-correction codewords of an all-zero input are all zero.
pub proof fn lemma_zero_input_zero_codewords(input: Seq<u8>, coeffs: Seq<u8>, k: nat)
    requires
        forall|i: int| 0 <= i < input.len() ==> input[i] == 0u8,
    ensures
        rs_remainder(input, coeffs, k).len() == k,
        forall|j: int| 0 <= j < k ==> rs_remainder(input, coeffs, k)[j] == 0u8,
    decreases input.len(),
{
    if input.len() > 0 {
        lemma_zero_input_zero_codewords(input.drop_last(), coeffs, k);
        let reg = rs_remainder(input.drop_last(), coeffs, k);
        assert(0u8 ^ 0u8 == 0u8) by (bit_vector);
        if k >= 1 {
            assert(reg[0] == 0u8);
            assert((input.last() ^ reg[0]) as u16 == 0u16);
            assert forall|j: int| 0 <= j < k implies rs_remainder(input, coeffs, k)[j]
                == 0u8 by {
                if j < k - 1 {
                    assert(reg[j + 1] == 0u8);
                }
            }
        }
    }
}

} // verus!
