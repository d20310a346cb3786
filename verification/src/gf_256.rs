use vstd::prelude::*;

verus! {

/// One step of the GF(256) exponentiation walk: multiply by the primitive
/// root 2, reducing by the primitive polynomial x^8+x^4+x^3+x^2+1 (0x11d).
pub open spec fn gf_step(x: u16) -> u16 {
    let d = x << 1;
    if d & 0x100 != 0 {
        d ^ 0x11d
    } else {
        d
    }
}

/// The i-th power of the primitive root 2 in GF(256).
pub open spec fn gf_exp_at(i: nat) -> u16
    decreases i,
{
    if i == 0 {
        1
    } else {
        gf_step(gf_exp_at((i - 1) as nat))
    }
}

/// The value the logarithm table holds for `a` after the first `i` writes:
/// the table is written in order of increasing exponent, so the largest
/// exponent below `i` whose power equals `a` wins; 0 if none does.
pub open spec fn gf_log_search(a: u16, i: nat) -> u8
    decreases i,
{
    if i == 0 {
        0
    } else if gf_exp_at((i - 1) as nat) == a {
        (i - 1) as u8
    } else {
        gf_log_search(a, (i - 1) as nat)
    }
}

/// The final logarithm-table entry for `a`.
pub open spec fn gf_log_at(a: u16) -> u8 {
    gf_log_search(a, 256)
}

/// GF(256) product, as the tables compute it: 0 when either factor is 0,
/// else the power whose exponent is the sum of the logarithms modulo 255.
pub open spec fn gf_mul(a: u16, b: u16) -> u8 {
    if a == 0 || b == 0 {
        0
    } else {
        gf_exp_at(((gf_log_at(a) + gf_log_at(b)) % 255) as nat) as u8
    }
}

proof fn lemma_gf_step_range(x: u16)
    by (bit_vector)
    requires
        0 < x < 256,
    ensures
        0 < gf_step(x) < 256,
{
}

pub proof fn lemma_gf_exp_range(i: nat)
    ensures
        0 < gf_exp_at(i) < 256,
    decreases i,
{
    if i > 0 {
        lemma_gf_exp_range((i - 1) as nat);
        lemma_gf_step_range(gf_exp_at((i - 1) as nat));
    }
}

pub struct GF256 {
    exp: Vec<u8>,
    log: Vec<u8>,
}

impl GF256 {
    /// The tables hold exactly the exponent walk and the logarithms it induces.
    pub closed spec fn wf(self) -> bool {
        &&& self.exp@.len() == 512
        &&& self.log@.len() == 256
        &&& forall|j: int| 0 <= j < 256 ==> self.exp@[j] == gf_exp_at(j as nat) as u8
        &&& forall|j: int| 256 <= j < 512 ==> #[trigger] self.exp@[j] == self.exp@[j - 255]
        &&& forall|a: int| 0 <= a < 256 ==> self.log@[a] == gf_log_at(a as u16)
    }

    pub fn new() -> (gf: GF256)
        ensures
            gf.wf(),
    {
        let mut gf_256 = GF256 { exp: Vec::new(), log: Vec::new() };
        gf_256.init();
        gf_256
    }

    fn init(&mut self)
        ensures
            final(self).wf(),
    {
        let mut exp: Vec<u8> = Vec::new();
        let mut log: Vec<u8> = Vec::new();
        while log.len() < 256
            invariant
                log@.len() <= 256,
                forall|a: int| 0 <= a < log@.len() ==> log@[a] == 0u8,
            decreases 256 - log@.len(),
        {
            log.push(0);
        }

        let mut x: u16 = 1;
        let mut i: usize = 0;
        while i < 256
            invariant
                i <= 256,
                exp@.len() == i,
                0 < x < 256,
                x == gf_exp_at(i as nat),
                log@.len() == 256,
                forall|j: int| 0 <= j < i ==> exp@[j] == gf_exp_at(j as nat) as u8,
                forall|a: int| 0 <= a < 256 ==> log@[a] == gf_log_search(a as u16, i as nat),
            decreases 256 - i,
        {
            exp.push(x as u8);
            log.set(x as usize, i as u8);
            proof {
                assert(gf_exp_at(i as nat) as u8 as u16 == gf_exp_at(i as nat)) by {
                    lemma_gf_exp_range(i as nat);
                };
            }
            x <<= 1;
            if (x & 0x100) != 0 {
                x ^= 0x11d;
            }
            i = i + 1;
            proof {
                lemma_gf_exp_range(i as nat);
            }
        }

        // Duplicate the cycle into the upper half of the table so that a
        // summed exponent needs no reduction before lookup.
        while i < 512
            invariant
                256 <= i <= 512,
                exp@.len() == i,
                forall|j: int| 0 <= j < 256 ==> exp@[j] == gf_exp_at(j as nat) as u8,
                forall|j: int| 256 <= j < i ==> #[trigger] exp@[j] == exp@[j - 255],
            decreases 512 - i,
        {
            let v = exp[i - 255];
            exp.push(v);
            i = i + 1;
        }

        self.exp = exp;
        self.log = log;
    }

    pub fn multiply(&self, a: usize, b: usize) -> (r: u8)
        requires
            self.wf(),
            a < 256,
            b < 256,
        ensures
            r == gf_mul(a as u16, b as u16),
    {
        if a == 0 || b == 0 {
            return 0;
        }

        let exp_idx = (self.log[a] as usize + self.log[b] as usize) % 255;

        self.exp[exp_idx]
    }
}

/// Whether `a` occurs among the powers of the root with exponent at most `i`.
spec fn gf_covered(a: u16, i: u16) -> bool
    decreases i,
{
    if gf_exp_at(i as nat) == a {
        true
    } else if i == 0 {
        false
    } else {
        gf_covered(a, (i - 1) as u16)
    }
}

/// Every nonzero element is a power of the primitive root with exponent
/// at most 254: the root generates the whole multiplicative group.
proof fn lemma_gf_orbit_complete(a: u16)
    requires
        1 <= a < 256,
    ensures
        gf_covered(a, 254),
{
    assert(forall|a: u16| 1 <= a < 256 ==> gf_covered(a, 254)) by (bit_vector);
}

proof fn lemma_gf_covered_exists(a: u16, i: u16)
    requires
        gf_covered(a, i),
    ensures
        exists|j: u16| j <= i && #[trigger] gf_exp_at(j as nat) == a,
    decreases i,
{
    if gf_exp_at(i as nat) == a {
        assert(i <= i && gf_exp_at(i as nat) == a);
    } else {
        lemma_gf_covered_exists(a, (i - 1) as u16);
    }
}

/// When some exponent below `n` reaches `a`, the search finds one of them.
proof fn lemma_gf_log_search_finds(a: u16, n: nat)
    requires
        n <= 256,
        exists|j: u16| j < n && #[trigger] gf_exp_at(j as nat) == a,
    ensures
        gf_exp_at(gf_log_search(a, n) as nat) == a,
    decreases n,
{
    let j0 = choose|j: u16| j < n && #[trigger] gf_exp_at(j as nat) == a;
    if gf_exp_at((n - 1) as nat) == a {
        assert(gf_log_search(a, n) == (n - 1) as u8);
    } else {
        assert(j0 < n - 1);
        lemma_gf_log_search_finds(a, (n - 1) as nat);
    }
}

proof fn lemma_gf_log_search_bound(a: u16, n: nat)
    requires
        1 <= n <= 256,
    ensures
        gf_log_search(a, n) < n,
    decreases n,
{
    if gf_exp_at((n - 1) as nat) == a {
        assert(gf_log_search(a, n) == (n - 1) as u8);
    } else if n > 1 {
        lemma_gf_log_search_bound(a, (n - 1) as nat);
    } else {
        assert(gf_log_search(a, 1) == gf_log_search(a, 0));
        assert(gf_log_search(a, 0) == 0);
    }
}

/// The exponent and logarithm tables invert one another: looking up the
/// logarithm of a nonzero element and exponentiating gives the element back.
pub proof fn lemma_gf_exp_log(a: u16)
    requires
        1 <= a < 256,
    ensures
        gf_exp_at(gf_log_at(a) as nat) == a,
{
    lemma_gf_orbit_complete(a);
    lemma_gf_covered_exists(a, 254);
    lemma_gf_log_search_finds(a, 256);
}

/// A product with a zero factor is zero.
pub proof fn lemma_multiply_by_zero(a: u16, b: u16)
    ensures
        gf_mul(a, 0) == 0,
        gf_mul(0, b) == 0,
{
}

/// The product does not depend on the order of its factors.
pub proof fn lemma_multiply_commutative(a: u16, b: u16)
    ensures
        gf_mul(a, b) == gf_mul(b, a),
{
}

/// Multiplying a nonzero element by 1 gives the element back.
pub proof fn lemma_multiply_identity(a: u16)
    requires
        1 <= a < 256,
    ensures
        gf_mul(a, 1) == a,
{
    assert(gf_exp_at(255) == 1) by (bit_vector);
    assert(gf_log_at(1) == 255);
    if a == 1 {
        assert((255 + 255) % 255 == 0) by (nonlinear_arith);
    } else {
        lemma_gf_log_search_bound(a, 255);
        assert(gf_log_at(a) == gf_log_search(a, 255));
        let l = gf_log_at(a) as int;
        assert((l + 255) % 255 == l) by (nonlinear_arith)
            requires
                0 <= l < 255,
        ;
        lemma_gf_exp_log(a);
    }
}

} // verus!
