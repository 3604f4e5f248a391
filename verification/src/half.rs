//! Half-precision storage: numbers round to the nearest half on their way to
//! an f16 tensor and widen exactly on their way back.
//!
//! Both formats are read as whole numbers of their smallest step, so that a
//! half's value is a multiple of a single's.

use crate::dtype::Scalar;
use vstd::arithmetic::power2::{lemma_pow2_adds, lemma_pow2_pos, pow2};
use vstd::prelude::*;

verus! {

/// The bit pattern of an infinite half, without its sign. As a number of
/// steps it stands for the first power of two that no finite half reaches.
pub const HALF_INFINITE: u16 = 0x7C00;

/// The bit pattern of an infinite single, without its sign.
pub const SINGLE_INFINITE: u32 = 0x7F80_0000;

/// The bit of a single's sign.
pub const SINGLE_SIGN: u32 = 0x8000_0000;

/// A half's magnitude, in steps of `2^-24`.
pub open spec fn half_steps(magnitude: int) -> int {
    let exponent = magnitude / 1024;
    let mantissa = magnitude % 1024;
    if exponent == 0 {
        mantissa
    } else {
        (1024 + mantissa) * pow2((exponent - 1) as nat)
    }
}

/// A single's magnitude, in steps of `2^-149`.
pub open spec fn single_steps(magnitude: int) -> int {
    let exponent = magnitude / 0x80_0000;
    let mantissa = magnitude % 0x80_0000;
    if exponent == 0 {
        mantissa
    } else {
        (0x80_0000 + mantissa) * pow2((exponent - 1) as nat)
    }
}

/// A single's value, in steps of `2^-149`.
pub open spec fn single_value(single: Scalar) -> int {
    let steps = single_steps(single.bits as int % 0x8000_0000);
    if single.bits >= SINGLE_SIGN {
        -steps
    } else {
        steps
    }
}

/// A half's magnitude in the steps of a single, `2^125` of which make one of
/// its own.
pub open spec fn half_in_single_steps(magnitude: int) -> int {
    half_steps(magnitude) * pow2(125)
}

/// How far a half is from a value in the steps of a single.
pub open spec fn distance(magnitude: int, steps: int) -> int {
    let gap = half_in_single_steps(magnitude) - steps;
    if gap < 0 {
        -gap
    } else {
        gap
    }
}

/// `rounded` is the half nearest to a value, the even one of two that are
/// equally near; values beyond the last half round to infinity.
pub open spec fn is_nearest(rounded: int, steps: int) -> bool {
    &&& 0 <= rounded <= HALF_INFINITE
    &&& forall|other: int|
        0 <= other <= HALF_INFINITE ==> {
            let gap = #[trigger] distance(other, steps);
            &&& distance(rounded, steps) <= gap
            &&& distance(rounded, steps) == gap && other != rounded ==> rounded % 2 == 0
        }
}

/// The half that a single is stored as: nearest where the single is finite,
/// infinite where it is infinite, and the same quiet payload for a NaN.
pub open spec fn stored_as(single: Scalar, half: u16) -> bool {
    let magnitude = single.bits as int % 0x8000_0000;
    let negative = single.bits >= SINGLE_SIGN;
    let stored = half as int % 0x8000;
    &&& half >= 0x8000 <==> negative
    &&& if magnitude < SINGLE_INFINITE {
        is_nearest(stored, single_steps(magnitude))
    } else if magnitude == SINGLE_INFINITE {
        stored == HALF_INFINITE
    } else {
        let payload = (magnitude - SINGLE_INFINITE) / 8192;
        stored == HALF_INFINITE + (if payload < 512 { payload + 512 } else { payload })
    }
}

/// The single that a half is read as: the same value where the half is
/// finite, infinite where it is infinite, and the same payload for a NaN.
pub open spec fn read_as(half: u16, single: Scalar) -> bool {
    let magnitude = half as int % 0x8000;
    let read = single.bits as int % 0x8000_0000;
    &&& half >= 0x8000 <==> single.bits >= SINGLE_SIGN
    &&& if magnitude < HALF_INFINITE {
        read < SINGLE_INFINITE && single_steps(read) == half_in_single_steps(magnitude)
    } else {
        read == SINGLE_INFINITE + (magnitude - HALF_INFINITE) * 8192
    }
}

/// The next half is one step of its own binade away.
proof fn lemma_next_half(h: int)
    requires
        0 <= h < HALF_INFINITE,
    ensures
        half_steps(h + 1) == half_steps(h) + (if h < 1024 {
            1
        } else {
            pow2((h / 1024 - 1) as nat) as int
        }),
        half_steps(h) < half_steps(h + 1),
{
    let e = h / 1024;
    let m = h % 1024;
    vstd::arithmetic::power2::lemma2_to64();
    if e > 0 {
        let w = pow2((e - 1) as nat) as int;
        lemma_pow2_pos((e - 1) as nat);
        vstd::arithmetic::power2::lemma_pow2_unfold(e as nat);
        assert((1024 + m + 1) * w == (1024 + m) * w + w) by (nonlinear_arith);
        assert(1024 * (2 * w) == (1024 + 1023) * w + w) by (nonlinear_arith);
    }
}

/// Halves are ordered as their bit patterns are.
proof fn lemma_halves_increase(a: int, b: int)
    requires
        0 <= a < b <= HALF_INFINITE,
    ensures
        half_in_single_steps(a) < half_in_single_steps(b),
    decreases b - a,
{
    lemma_next_half(b - 1);
    lemma_pow2_pos(125);
    let x = half_steps(b - 1);
    let y = half_steps(b);
    assert(x * pow2(125) < y * pow2(125)) by (nonlinear_arith)
        requires
            x < y,
            pow2(125) > 0,
    ;
    if a < b - 1 {
        lemma_halves_increase(a, b - 1);
    }
}

/// Of the two halves around a value, the nearer one is the nearest of all.
proof fn lemma_bracketed(base: int, steps: int, rounded: int)
    requires
        0 <= base < HALF_INFINITE,
        half_in_single_steps(base) <= steps < half_in_single_steps(base + 1),
        ({
            let below = steps - half_in_single_steps(base);
            let above = half_in_single_steps(base + 1) - steps;
            ||| rounded == base && (below < above || below == above && base % 2 == 0)
            ||| rounded == base + 1 && (below > above || below == above && base % 2 == 1)
        }),
    ensures
        is_nearest(rounded, steps),
{
    assert forall|other: int| 0 <= other <= HALF_INFINITE implies {
        let gap = #[trigger] distance(other, steps);
        &&& distance(rounded, steps) <= gap
        &&& distance(rounded, steps) == gap && other != rounded ==> rounded % 2 == 0
    } by {
        if other < base {
            lemma_halves_increase(other, base);
        }
        if other > base + 1 {
            lemma_halves_increase(base + 1, other);
        }
    }
}

/// Values beyond every finite half are nearest to infinity.
proof fn lemma_beyond(steps: int)
    requires
        half_in_single_steps(HALF_INFINITE as int) <= steps,
    ensures
        is_nearest(HALF_INFINITE as int, steps),
{
    assert forall|other: int| 0 <= other <= HALF_INFINITE implies {
        let gap = #[trigger] distance(other, steps);
        &&& distance(HALF_INFINITE as int, steps) <= gap
        &&& distance(HALF_INFINITE as int, steps) == gap && other != HALF_INFINITE ==> HALF_INFINITE
            % 2 == 0
    } by {
        if other < HALF_INFINITE {
            lemma_halves_increase(other, HALF_INFINITE as int);
        }
    }
}

/// A value that lies `rest` of `width` parts above a half, each part `weight`
/// steps, and that half's successor `width` parts above it.
proof fn lemma_rounds(base: int, steps: int, width: int, rest: int, weight: int, rounded: int)
    requires
        0 <= base < HALF_INFINITE,
        0 <= rest < width,
        weight > 0,
        steps == half_in_single_steps(base) + rest * weight,
        half_in_single_steps(base + 1) == half_in_single_steps(base) + width * weight,
        rounded == (if 2 * rest > width || 2 * rest == width && base % 2 == 1 {
            base + 1
        } else {
            base
        }),
    ensures
        is_nearest(rounded, steps),
{
    let above = (width - rest) * weight;
    assert(above == width * weight - rest * weight && above > 0 && rest * weight >= 0)
        by (nonlinear_arith)
        requires
            above == (width - rest) * weight,
            0 <= rest < width,
            weight > 0,
    ;
    assert((2 * rest > width <==> rest * weight > above) && (2 * rest == width <==> rest * weight
        == above)) by (nonlinear_arith)
        requires
            above == (width - rest) * weight,
            weight > 0,
    ;
    lemma_bracketed(base, steps, rounded);
}

fn power_of_two(n: u32) -> (r: u32)
    requires
        n < 32,
    ensures
        r == pow2(n as nat),
{
    let mut r: u32 = 1;
    let mut i: u32 = 0;
    proof {
        vstd::arithmetic::power2::lemma2_to64();
    }
    while i < n
        invariant
            i <= n < 32,
            r == pow2(i as nat),
        decreases n - i,
    {
        proof {
            vstd::arithmetic::power2::lemma_pow2_unfold((i + 1) as nat);
            vstd::arithmetic::power2::lemma2_to64();
            if i + 1 < 31 {
                vstd::arithmetic::power2::lemma_pow2_strictly_increases((i + 1) as nat, 31);
            }
        }
        r = 2 * r;
        i = i + 1;
    }
    r
}

/// The half nearest to a single that is at least the smallest normal half and
/// below the first power of two beyond the last one: thirteen bits of the
/// mantissa are rounded away, and a carry goes into the exponent.
fn round_normal(magnitude: u32) -> (r: u16)
    requires
        0x3880_0000 <= magnitude < 0x4780_0000,
    ensures
        is_nearest(r as int, single_steps(magnitude as int)),
{
    let shifted: u32 = magnitude - 0x3800_0000;
    let base: u32 = shifted / 8192;
    let rest: u32 = shifted % 8192;
    let rounded: u32 = if rest > 4096 || rest == 4096 && base % 2 == 1 { base + 1 } else { base };
    proof {
        let e = magnitude as int / 0x80_0000;
        let m = magnitude as int % 0x80_0000;
        let q = m / 8192;
        let w = pow2((e - 1) as nat) as int;
        lemma_pow2_pos((e - 1) as nat);
        assert(base == (e - 112) * 1024 + q);
        assert(rest == m % 8192);
        assert(base as int / 1024 == e - 112 && base as int % 1024 == q);
        let u = pow2((e - 113) as nat) as int;
        let p = pow2(125) as int;
        lemma_pow2_adds((e - 113) as nat, 125);
        lemma_pow2_adds((e - 1) as nat, 13);
        vstd::arithmetic::power2::lemma2_to64();
        assert(u * p == w * 8192);
        assert((1024 + q) * u * p == (1024 + q) * (u * p)) by (nonlinear_arith);
        assert((1024 + q) * (w * 8192) + rest * w == (0x80_0000 + m) * w) by (nonlinear_arith)
            requires
                m == q * 8192 + rest,
        ;
        lemma_next_half(base as int);
        let x = half_steps(base as int);
        assert((x + u) * p == x * p + u * p) by (nonlinear_arith);
        lemma_rounds(
            base as int,
            single_steps(magnitude as int),
            8192,
            rest as int,
            w,
            rounded as int,
        );
    }
    rounded as u16
}

/// The half nearest to a single below the smallest normal half: a whole
/// number of the smallest steps.
fn round_small(magnitude: u32) -> (r: u16)
    requires
        magnitude < 0x3880_0000,
    ensures
        is_nearest(r as int, single_steps(magnitude as int)),
{
    let stored: u32 = magnitude / 0x80_0000;
    let mantissa: u32 = magnitude % 0x80_0000;
    let exponent: u32 = if stored == 0 { 1 } else { stored };
    let full: u32 = if stored == 0 { mantissa } else { mantissa + 0x80_0000 };
    let shift: u32 = 126 - exponent;
    let ghost w = pow2((exponent - 1) as nat) as int;
    let ghost d = pow2(shift as nat) as int;
    let ghost p = pow2(125) as int;
    proof {
        vstd::arithmetic::power2::lemma2_to64();
        lemma_pow2_pos((exponent - 1) as nat);
        lemma_pow2_adds(shift as nat, (exponent - 1) as nat);
        assert(p == d * w);
        assert(single_steps(magnitude as int) == full * w) by (nonlinear_arith)
            requires
                stored == 0 ==> single_steps(magnitude as int) == full && w == 1,
                stored != 0 ==> single_steps(magnitude as int) == full * w,
        ;
    }
    if shift > 24 {
        proof {
            vstd::arithmetic::power2::lemma_pow2_strictly_increases(24, shift as nat);
            vstd::arithmetic::power2::lemma_pow2_unfold(shift as nat);
            if shift > 25 {
                vstd::arithmetic::power2::lemma_pow2_strictly_increases(24, (shift - 1) as nat);
            }
            assert(2 * full < d);
            assert(half_in_single_steps(0) == 0) by (nonlinear_arith)
                requires
                    half_in_single_steps(0) == 0 * p,
            ;
            assert(half_in_single_steps(1) == p) by (nonlinear_arith)
                requires
                    half_in_single_steps(1) == 1 * p,
            ;
            lemma_rounds(0, single_steps(magnitude as int), d, full as int, w, 0);
        }
        return 0;
    }
    let width: u32 = power_of_two(shift);
    proof {
        if shift > 14 {
            vstd::arithmetic::power2::lemma_pow2_strictly_increases(14, shift as nat);
        }
        if shift < 24 {
            vstd::arithmetic::power2::lemma_pow2_strictly_increases(shift as nat, 24);
        }
    }
    let base: u32 = full / width;
    let rest: u32 = full % width;
    proof {
        assert(base <= 1023) by (nonlinear_arith)
            requires
                base == full / width,
                full < 0x100_0000,
                width >= 0x4000,
        ;
    }
    let rounded: u32 = if 2 * rest > width || 2 * rest == width && base % 2 == 1 {
        base + 1
    } else {
        base
    };
    proof {
        vstd::arithmetic::div_mod::lemma_fundamental_div_mod(full as int, width as int);
        let b = base as int;
        assert(b * p + rest * w == full * w) by (nonlinear_arith)
            requires
                p == width * w,
                full == width * b + rest,
        ;
        lemma_next_half(b);
        assert((b + 1) * p == b * p + d * w) by (nonlinear_arith)
            requires
                p == d * w,
        ;
        lemma_rounds(
            b,
            single_steps(magnitude as int),
            d,
            rest as int,
            w,
            rounded as int,
        );
    }
    rounded as u16
}

/// Every single from the first power of two beyond the last half on rounds to
/// infinity.
proof fn lemma_large_singles(magnitude: int)
    requires
        0x4780_0000 <= magnitude < SINGLE_INFINITE,
    ensures
        is_nearest(HALF_INFINITE as int, single_steps(magnitude)),
{
    let e = magnitude / 0x80_0000;
    let m = magnitude % 0x80_0000;
    let w = pow2((e - 1) as nat) as int;
    assert(e >= 143);
    vstd::arithmetic::power2::lemma2_to64();
    lemma_pow2_adds(142, 23);
    lemma_pow2_adds(40, 125);
    lemma_pow2_adds(10, 30);
    if e > 143 {
        vstd::arithmetic::power2::lemma_pow2_strictly_increases(142, (e - 1) as nat);
    }
    let first = pow2(142) as int;
    lemma_pow2_pos(142);
    assert((0x80_0000 + m) * w >= 0x80_0000 * first) by (nonlinear_arith)
        requires
            m >= 0,
            w >= first > 0,
    ;
    lemma_beyond(single_steps(magnitude));
}

/// A single as it is stored in an f16 tensor.
pub fn narrow(single: Scalar) -> (r: u16)
    ensures
        stored_as(single, r),
{
    let magnitude: u32 = single.bits % SINGLE_SIGN;
    let stored: u16 = if magnitude > SINGLE_INFINITE {
        let payload: u32 = (magnitude - SINGLE_INFINITE) / 8192;
        HALF_INFINITE + (if payload < 512 { payload + 512 } else { payload }) as u16
    } else if magnitude >= 0x4780_0000 {
        proof {
            if magnitude < SINGLE_INFINITE {
                lemma_large_singles(magnitude as int);
            }
        }
        HALF_INFINITE
    } else if magnitude >= 0x3880_0000 {
        round_normal(magnitude)
    } else {
        round_small(magnitude)
    };
    if single.bits >= SINGLE_SIGN {
        stored + 0x8000
    } else {
        stored
    }
}

/// The single that a finite half below the smallest normal one is read as.
fn widen_small(mantissa: u32) -> (r: u32)
    requires
        mantissa < 1024,
    ensures
        r < SINGLE_INFINITE,
        single_steps(r as int) == half_in_single_steps(mantissa as int),
{
    proof {
        vstd::arithmetic::power2::lemma2_to64();
    }
    if mantissa == 0 {
        assert(half_in_single_steps(0) == 0) by (nonlinear_arith)
            requires
                half_in_single_steps(0) == 0 * pow2(125),
        ;
        return 0;
    }
    let mut leading: u32 = mantissa;
    let mut k: u32 = 0;
    while leading < 1024
        invariant
            k <= 10,
            leading >= 1,
            leading >= pow2(k as nat),
            leading == mantissa * pow2(k as nat),
            leading < 2048,
            1 <= mantissa < 1024,
        decreases 2048 - leading,
    {
        proof {
            vstd::arithmetic::power2::lemma_pow2_unfold((k + 1) as nat);
            vstd::arithmetic::power2::lemma2_to64();
            assert(2 * (mantissa * pow2(k as nat)) == mantissa * (2 * pow2(k as nat)))
                by (nonlinear_arith);
        }
        leading = 2 * leading;
        k = k + 1;
    }
    let r: u32 = (113 - k) * 0x80_0000 + (leading - 1024) * 8192;
    proof {
        let e = 113 - k;
        let w = pow2((e - 1) as nat) as int;
        assert(r as int / 0x80_0000 == e && r as int % 0x80_0000 == (leading - 1024) * 8192);
        assert(single_steps(r as int) == (leading * 8192) * w);
        let d = pow2(k as nat) as int;
        lemma_pow2_adds(k as nat, 13);
        lemma_pow2_adds((k + 13) as nat, (e - 1) as nat);
        assert(d * 8192 * w == pow2(125));
        assert((mantissa * d * 8192) * w == mantissa * (d * 8192 * w)) by (nonlinear_arith);
    }
    r
}

/// A half of an f16 tensor as it is read.
pub fn widen(half: u16) -> (r: Scalar)
    ensures
        read_as(half, r),
{
    let magnitude: u32 = half as u32 % 0x8000;
    let exponent: u32 = magnitude / 1024;
    let mantissa: u32 = magnitude % 1024;
    let read: u32 = if exponent == 31 {
        SINGLE_INFINITE + mantissa * 8192
    } else if exponent == 0 {
        widen_small(mantissa)
    } else {
        let r: u32 = (exponent + 112) * 0x80_0000 + mantissa * 8192;
        proof {
            let e = exponent + 112;
            let w = pow2((e - 1) as nat) as int;
            let u = pow2((exponent - 1) as nat) as int;
            assert(r as int / 0x80_0000 == e && r as int % 0x80_0000 == mantissa * 8192);
            lemma_pow2_adds((exponent - 1) as nat, 125);
            lemma_pow2_adds((e - 1) as nat, 13);
            vstd::arithmetic::power2::lemma2_to64();
            assert(u * pow2(125) == w * 8192);
            assert((1024 + mantissa) * u * pow2(125) == (1024 + mantissa) * (u * pow2(125)))
                by (nonlinear_arith);
            assert((1024 + mantissa) * (w * 8192) == (0x80_0000 + mantissa * 8192) * w)
                by (nonlinear_arith);
        }
        r
    };
    if half >= 0x8000 {
        Scalar { bits: read + SINGLE_SIGN }
    } else {
        Scalar { bits: read }
    }
}

/// What a tensor holds is stored again unchanged: a half that was read as a
/// single rounds back to itself, unless it is no number at all.
pub proof fn halves_survive_a_round_trip(half: u16, single: Scalar, again: u16)
    requires
        half as int % 0x8000 <= HALF_INFINITE,
        read_as(half, single),
        stored_as(single, again),
    ensures
        again == half,
{
    let h = half as int % 0x8000;
    let a = again as int % 0x8000;
    if h < HALF_INFINITE {
        let steps = half_in_single_steps(h);
        assert(distance(h, steps) == 0);
        if a < h {
            lemma_halves_increase(a, h);
        }
        if h < a {
            lemma_halves_increase(h, a);
        }
    }
}

/// Two halves that are both nearest to a value are the same.
proof fn lemma_nearest_unique(a: int, b: int, steps: int)
    requires
        is_nearest(a, steps),
        is_nearest(b, steps),
        a <= b,
    ensures
        a == b,
{
    if a < b {
        assert(distance(a, steps) <= distance(b, steps));
        assert(distance(b, steps) <= distance(a, steps));
        lemma_halves_increase(a, b);
        let between = a + 1;
        if between < b {
            lemma_halves_increase(a, between);
            lemma_halves_increase(between, b);
            assert(distance(a, steps) <= distance(between, steps));
        }
    }
}

/// A single is stored as one half only.
pub proof fn stored_form_is_unique(single: Scalar, one: u16, other: u16)
    requires
        stored_as(single, one),
        stored_as(single, other),
    ensures
        one == other,
{
    let magnitude = single.bits as int % 0x8000_0000;
    if magnitude < SINGLE_INFINITE {
        let a = one as int % 0x8000;
        let b = other as int % 0x8000;
        let steps = single_steps(magnitude);
        if a < b {
            lemma_nearest_unique(a, b, steps);
        }
        if b < a {
            lemma_nearest_unique(b, a, steps);
        }
    }
}

/// Singles are ordered as their bit patterns are.
pub(crate) proof fn lemma_singles_increase(a: int, b: int)
    requires
        0 <= a < b < SINGLE_INFINITE,
    ensures
        single_steps(a) < single_steps(b),
    decreases b - a,
{
    let e = (b - 1) / 0x80_0000;
    let m = (b - 1) % 0x80_0000;
    vstd::arithmetic::power2::lemma2_to64();
    if e > 0 {
        let w = pow2((e - 1) as nat) as int;
        lemma_pow2_pos((e - 1) as nat);
        vstd::arithmetic::power2::lemma_pow2_unfold(e as nat);
        assert((0x80_0000 + m + 1) * w == (0x80_0000 + m) * w + w) by (nonlinear_arith);
        assert(0x80_0000 * (2 * w) == (0x80_0000 + 0x7F_FFFF) * w + w) by (nonlinear_arith);
    }
    if m < 0x7F_FFFF {
        assert(b / 0x80_0000 == e && b % 0x80_0000 == m + 1);
    } else {
        assert(b / 0x80_0000 == e + 1 && b % 0x80_0000 == 0);
    }
    assert(single_steps(b - 1) < single_steps(b));
    if a < b - 1 {
        lemma_singles_increase(a, b - 1);
    }
}

/// A half is read as one single only.
pub proof fn read_form_is_unique(half: u16, one: Scalar, other: Scalar)
    requires
        read_as(half, one),
        read_as(half, other),
    ensures
        one == other,
{
    let a = one.bits as int % 0x8000_0000;
    let b = other.bits as int % 0x8000_0000;
    if half as int % 0x8000 < HALF_INFINITE {
        if a < b {
            lemma_singles_increase(a, b);
        }
        if b < a {
            lemma_singles_increase(b, a);
        }
    }
    assert(one.bits == other.bits);
}

/// Storing keeps the order of finite numbers of the same sign.
pub proof fn storing_keeps_order(lesser: Scalar, greater: Scalar, low: u16, high: u16)
    requires
        lesser.bits < SINGLE_INFINITE,
        greater.bits < SINGLE_INFINITE,
        single_steps(lesser.bits as int) <= single_steps(greater.bits as int),
        stored_as(lesser, low),
        stored_as(greater, high),
    ensures
        low <= high,
{
    let x = single_steps(lesser.bits as int);
    let y = single_steps(greater.bits as int);
    if high < low {
        lemma_halves_increase(high as int, low as int);
        assert(distance(low as int, x) <= distance(high as int, x));
        assert(distance(high as int, y) <= distance(low as int, y));
        let between = high + 1;
        if between < low {
            lemma_halves_increase(high as int, between);
            lemma_halves_increase(between, low as int);
            assert(distance(low as int, x) <= distance(between, x));
        }
    }
}

} // verus!
