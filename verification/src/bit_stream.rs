use vstd::prelude::*;

verus! {

/// Two to the power `k`.
pub open spec fn bpow(k: nat) -> int
    decreases k,
{
    if k == 0 {
        1
    } else {
        2 * bpow((k - 1) as nat)
    }
}

pub proof fn lemma_bpow_le(k1: nat, k2: nat)
    requires
        k1 <= k2,
    ensures
        1 <= bpow(k1) <= bpow(k2),
    decreases k2,
{
    if k2 > 0 {
        if k1 == k2 {
            lemma_bpow_le(0, (k2 - 1) as nat);
        } else {
            lemma_bpow_le(k1, (k2 - 1) as nat);
        }
    }
}

/// The small powers of two the codec works with.
pub proof fn lemma_bpow_values()
    ensures
        bpow(0) == 1,
        bpow(1) == 2,
        bpow(2) == 4,
        bpow(3) == 8,
        bpow(4) == 16,
        bpow(5) == 32,
        bpow(6) == 64,
        bpow(7) == 128,
        bpow(8) == 256,
        bpow(9) == 512,
        bpow(10) == 1024,
        bpow(11) == 2048,
        bpow(15) == 32768,
        bpow(16) == 65536,
{
    reveal_with_fuel(bpow, 17);
}

/// The most-significant-bit-first bit pattern of `v` in `n` bits: element `i`
/// holds bit `n - 1 - i` of `v`.
pub open spec fn bits_of(v: int, n: nat) -> Seq<bool> {
    Seq::new(n, |i: int| (v / bpow((n - 1 - i) as nat)) % 2 == 1)
}

/// The value a most-significant-bit-first bit pattern denotes.
pub open spec fn bits_val(s: Seq<bool>) -> int
    decreases s.len(),
{
    if s.len() == 0 {
        0
    } else {
        2 * bits_val(s.drop_last()) + (if s.last() {
            1int
        } else {
            0int
        })
    }
}

/// The bit sequence read off as whole bytes, most significant bit first.
pub open spec fn bytes_of_bits(s: Seq<bool>) -> Seq<u8> {
    Seq::new(s.len() / 8, |i: int| bits_val(s.subrange(8 * i, 8 * i + 8)) as u8)
}

/// An ordered bit buffer filled most significant bit first and drained as
/// whole bytes.
pub struct BitStream {
    bits: Vec<bool>,
}

impl View for BitStream {
    type V = Seq<bool>;

    closed spec fn view(&self) -> Seq<bool> {
        self.bits@
    }
}

impl BitStream {
    pub fn new() -> (w: BitStream)
        ensures
            w@ == Seq::<bool>::empty(),
    {
        BitStream { bits: Vec::new() }
    }

    pub fn len(&self) -> (n: usize)
        ensures
            n == self@.len(),
    {
        self.bits.len()
    }

    /// Append the `n`-bit pattern of `value`, most significant bit first.
    pub fn write(&mut self, n: usize, value: u16)
        requires
            n <= 16,
            (value as int) < bpow(n as nat),
            old(self)@.len() + n <= 200,
        ensures
            final(self)@ == old(self)@ + bits_of(value as int, n as nat),
    {
        if n == 0 {
            proof {
                assert(final(self)@ =~= old(self)@ + bits_of(value as int, 0));
            }
            return ;
        }

        let mut p: u32 = 1;
        let mut j: usize = 0;
        while j + 1 < n
            invariant
                n <= 16,
                j < n,
                p == bpow(j as nat),
            decreases n - j,
        {
            proof {
                lemma_bpow_le((j + 1) as nat, 16);
                lemma_bpow_values();
            }
            p = p * 2;
            j = j + 1;
        }

        let mut i: usize = 0;
        while i < n
            invariant
                n <= 16,
                i <= n,
                i < n ==> p == bpow((n - 1 - i) as nat),
                self@ == old(self)@ + bits_of(value as int, n as nat).take(i as int),
            decreases n - i,
        {
            proof {
                lemma_bpow_le((n - 1 - i) as nat, 16);
                lemma_bpow_values();
                assert(bits_of(value as int, n as nat)[i as int] == ((value as int / bpow(
                    (n - 1 - i) as nat,
                )) % 2 == 1));
            }
            let bit = (value as u32 / p) % 2 == 1;
            self.bits.push(bit);
            proof {
                assert(self@ =~= old(self)@ + bits_of(value as int, n as nat).take(i + 1));
            }
            p = p / 2;
            i = i + 1;
        }
        proof {
            assert(bits_of(value as int, n as nat).take(n as int) =~= bits_of(
                value as int,
                n as nat,
            ));
        }
    }

    /// Append zero bits up to the next byte boundary.
    pub fn byte_align(&mut self)
        requires
            old(self)@.len() <= 192,
        ensures
            final(self)@ == old(self)@ + bits_of(0, ((8 - old(self)@.len() % 8) % 8) as nat),
            final(self)@.len() % 8 == 0,
    {
        let ghost pad = ((8 - old(self)@.len() % 8) % 8) as nat;
        let mut added: usize = 0;
        while self.bits.len() % 8 != 0
            invariant
                added <= pad,
                self@ == old(self)@ + bits_of(0, added as nat),
                self@.len() == old(self)@.len() + added,
                pad == ((8 - old(self)@.len() % 8) % 8) as nat,
                self@.len() % 8 == 0 <==> added == pad,
            decreases (8 - self@.len() % 8) % 8,
        {
            self.bits.push(false);
            proof {
                assert(self@ =~= old(self)@ + bits_of(0, (added + 1) as nat));
            }
            added = added + 1;
        }
    }

    /// Read the buffer out as bytes; the length must be a whole number of
    /// bytes.
    pub fn to_bytes(&self) -> (r: Vec<u8>)
        requires
            self@.len() % 8 == 0,
        ensures
            r@ == bytes_of_bits(self@),
            r@.len() == self@.len() / 8,
    {
        let total = self.bits.len() / 8;
        let mut r: Vec<u8> = Vec::new();
        let mut i: usize = 0;
        let mut idx: usize = 0;
        while i < total
            invariant
                self@.len() % 8 == 0,
                total == self@.len() / 8,
                8 * (total as int) == self@.len(),
                self@.len() <= usize::MAX,
                i <= total,
                idx == 8 * (i as int),
                r@ == bytes_of_bits(self@).take(i as int),
            decreases total - i,
        {
            let mut acc: u8 = 0;
            let mut j: usize = 0;
            while j < 8
                invariant
                    self@.len() % 8 == 0,
                    total == self@.len() / 8,
                    8 * (total as int) == self@.len(),
                    self@.len() <= usize::MAX,
                    i < total,
                    j <= 8,
                    idx == 8 * (i as int) + j,
                    acc as int == bits_val(self@.subrange(8 * i as int, 8 * i as int + j as int)),
                    acc as int <= bpow(j as nat) - 1,
                decreases 8 - j,
            {
                proof {
                    lemma_bpow_le(j as nat, 7);
                    lemma_bpow_values();
                }
                let bit = self.bits[idx];
                acc = acc * 2 + (if bit {
                    1
                } else {
                    0
                });
                proof {
                    let ghost sub = self@.subrange(8 * i as int, 8 * i as int + j + 1);
                    assert(sub.drop_last() =~= self@.subrange(8 * i as int, 8 * i as int + j));
                    assert(sub.last() == self@[8 * i as int + j]);
                }
                idx = idx + 1;
                j = j + 1;
            }
            r.push(acc);
            proof {
                assert(r@ =~= bytes_of_bits(self@).take(i + 1));
            }
            i = i + 1;
        }
        proof {
            assert(bytes_of_bits(self@).take(total as int) =~= bytes_of_bits(self@));
        }
        r
    }
}

} // verus!
