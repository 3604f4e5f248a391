//! Deterministic pseudo-random numbers for tests and benchmarks.

use crate::dtype::Scalar;
use crate::half::{
    lemma_singles_increase, single_steps, single_value, SINGLE_INFINITE, SINGLE_SIGN,
};
use vstd::arithmetic::power2::{
    lemma2_to64, lemma_pow2_adds, lemma_pow2_pos, lemma_pow2_unfold, pow2,
};
use vstd::prelude::*;

verus! {

/// The state of a generator before its first number.
pub open spec fn seeded(seed: u64) -> u64 {
    let mixed = (seed * 0x9E3779B97F4A7C15 % 0x1_0000_0000_0000_0000) as u64;
    mixed | 1
}

/// The state behind another one.
pub open spec fn advanced(state: u64) -> u64 {
    ((state * 6364136223846793005 + 1442695040888963407) % 0x1_0000_0000_0000_0000) as u64
}

/// The state after `n` numbers.
pub open spec fn state_after(seed: u64, n: nat) -> u64
    decreases n,
{
    if n == 0 {
        seeded(seed)
    } else {
        advanced(state_after(seed, (n - 1) as nat))
    }
}

fn advance(state: u64) -> (r: u64)
    ensures
        r == advanced(state),
{
    let product: u64 = state.wrapping_mul(6364136223846793005);
    let sum: u64 = product.wrapping_add(1442695040888963407);
    proof {
        let full = 0x1_0000_0000_0000_0000int;
        let a = state * 6364136223846793005;
        let b = 1442695040888963407int;
        vstd::arithmetic::div_mod::lemma_add_mod_noop(a, b, full);
        vstd::arithmetic::div_mod::lemma_add_mod_noop(product as int, b, full);
        assert(product == a % full);
        assert((a % full) % full == a % full);
    }
    sum
}

/// A 64-bit linear congruential generator: not random, but the same on every
/// run and every platform.
pub struct LcgRng {
    state: u64,
}

impl View for LcgRng {
    type V = u64;

    closed spec fn view(&self) -> u64 {
        self.state
    }
}

impl LcgRng {
    /// A generator with this seed.
    pub fn new(seed: u64) -> (r: Self)
        ensures
            r@ == seeded(seed),
            r@ == state_after(seed, 0),
    {
        LcgRng { state: seed.wrapping_mul(0x9E3779B97F4A7C15) | 1 }
    }

    /// The next number.
    pub fn next_u64(&mut self) -> (r: u64)
        ensures
            r == advanced(old(self)@),
            final(self)@ == r,
    {
        self.state = advance(self.state);
        self.state
    }

    /// The next number in `[lo, hi]`, both included. Nothing is drawn where
    /// the two are equal.
    pub fn range_u32(&mut self, lo: u32, hi: u32) -> (r: u32)
        requires
            lo <= hi,
        ensures
            lo <= r <= hi,
            lo == hi ==> final(self)@ == old(self)@,
            lo < hi ==> final(self)@ == advanced(old(self)@) && r == lo + advanced(old(self)@) as int % (hi - lo + 1),
    {
        if lo == hi {
            return lo;
        }
        let span: u64 = (hi - lo) as u64 + 1;
        lo + (self.next_u64() % span) as u32
    }
}

/// The numbers that one generator gives are those behind its seed, each made
/// from the one before it modulo `2^64`. The first is made from the mixed seed.
pub proof fn numbers_follow_a_recurrence(seed: u64, i: nat)
    ensures
        advanced(state_after(seed, i)) == state_after(seed, i + 1),
        state_after(seed, 1) == (((seed * 0x9E3779B97F4A7C15 % 0x1_0000_0000_0000_0000) as u64 | 1)
            * 6364136223846793005 + 1442695040888963407) % 0x1_0000_0000_0000_0000,
        state_after(seed, i + 2) == (state_after(seed, i + 1) * 6364136223846793005
            + 1442695040888963407) % 0x1_0000_0000_0000_0000,
{
    reveal_with_fuel(state_after, 2);
}

/// Whether a single is the number in `[-1, 1)` that a generator's number
/// stands for: `x / 2^24 * 2 - 1` for the upper 24 bits `x`, exactly. Zero has
/// no sign.
pub open spec fn fills(number: u64, single: Scalar) -> bool {
    let upper = number as int / 0x100_0000_0000;
    &&& single.bits != SINGLE_SIGN
    &&& single.bits as int % 0x8000_0000 < SINGLE_INFINITE
    &&& single_value(single) == (2 * upper - 0x100_0000) * pow2(125)
}

/// The single of magnitude `count / 2^23`.
fn fraction(count: u32) -> (r: u32)
    requires
        count <= 0x80_0000,
    ensures
        r < SINGLE_INFINITE,
        r == 0 <==> count == 0,
        single_steps(r as int) == (2 * count) * pow2(125),
{
    proof {
        lemma2_to64();
    }
    if count == 0 {
        assert(0 * pow2(125) == 0);
        return 0;
    }
    let mut leading: u32 = count;
    let mut k: u32 = 0;
    while leading < 0x80_0000
        invariant
            k <= 23,
            leading >= pow2(k as nat),
            leading == count * pow2(k as nat),
            1 <= leading < 0x100_0000,
        decreases 0x100_0000 - leading,
    {
        proof {
            lemma_pow2_unfold((k + 1) as nat);
            lemma2_to64();
            assert(2 * (count * pow2(k as nat)) == count * (2 * pow2(k as nat)))
                by (nonlinear_arith);
        }
        leading = 2 * leading;
        k = k + 1;
    }
    let r: u32 = (127 - k) * 0x80_0000 + (leading - 0x80_0000);
    proof {
        let d = pow2(k as nat) as int;
        let w = pow2((126 - k) as nat) as int;
        assert(r as int / 0x80_0000 == 127 - k && r as int % 0x80_0000 == leading - 0x80_0000);
        assert(single_steps(r as int) == leading * w);
        lemma_pow2_adds(k as nat, (126 - k) as nat);
        lemma_pow2_unfold(126);
        assert((count * d) * w == count * (d * w)) by (nonlinear_arith);
        assert(count * (2 * pow2(125)) == (2 * count) * pow2(125)) by (nonlinear_arith);
    }
    r
}

/// The number in `[-1, 1)` that a generator's number stands for.
fn fill_of(number: u64) -> (r: Scalar)
    ensures
        fills(number, r),
{
    let upper: u32 = (number / 0x100_0000_0000) as u32;
    if upper >= 0x80_0000 {
        let bits: u32 = fraction(upper - 0x80_0000);
        Scalar { bits }
    } else {
        let count: u32 = 0x80_0000 - upper;
        let bits: u32 = fraction(count);
        assert(-((2 * count) * pow2(125)) == (-(2 * count)) * pow2(125)) by (nonlinear_arith);
        Scalar { bits: bits + SINGLE_SIGN }
    }
}

/// Fills `out` with deterministic numbers in `[-1, 1)`: one for each number of
/// the generator with this seed.
pub fn fill_det(out: &mut [Scalar], seed: u64)
    ensures
        final(out)@.len() == old(out)@.len(),
        forall|i: int| 0 <= i < final(out)@.len() ==> fills(
            state_after(seed, (i + 1) as nat),
            #[trigger] final(out)@[i],
        ),
{
    let mut rng: LcgRng = LcgRng::new(seed);
    let mut i: usize = 0;
    let len: usize = out.len();
    while i < len
        invariant
            i <= len,
            len == out@.len(),
            len == old(out)@.len(),
            rng@ == state_after(seed, i as nat),
            forall|j: int| 0 <= j < i ==> fills(
                state_after(seed, (j + 1) as nat),
                #[trigger] out@[j],
            ),
        decreases len - i,
    {
        let number: u64 = rng.next_u64();
        out[i] = fill_of(number);
        i = i + 1;
    }
}

/// A generator's number stands for one single only.
pub proof fn one_single_fills(number: u64, one: Scalar, other: Scalar)
    requires
        fills(number, one),
        fills(number, other),
    ensures
        one == other,
{
    let a = one.bits as int % 0x8000_0000;
    let b = other.bits as int % 0x8000_0000;
    assert(single_steps(0) == 0);
    if a > 0 {
        lemma_singles_increase(0, a);
    }
    if b > 0 {
        lemma_singles_increase(0, b);
    }
    if a < b {
        lemma_singles_increase(a, b);
    }
    if b < a {
        lemma_singles_increase(b, a);
    }
    assert(one.bits == other.bits);
}

/// The deterministic numbers stay at or above -1 and below 1.
pub proof fn fills_stay_in_range(number: u64, single: Scalar)
    requires
        fills(number, single),
    ensures
        -pow2(149) <= single_value(single) < pow2(149),
{
    let upper = number as int / 0x100_0000_0000;
    let w = pow2(125) as int;
    lemma2_to64();
    lemma_pow2_adds(24, 125);
    lemma_pow2_pos(125);
    assert(-(0x100_0000 * w) <= (2 * upper - 0x100_0000) * w < 0x100_0000 * w) by (nonlinear_arith)
        requires
            0 <= upper < 0x100_0000,
            w > 0,
    ;
}

} // verus!
