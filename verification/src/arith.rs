//! Facts about products and quotients of machine integers.

use vstd::prelude::*;

verus! {

/// The product of two 32-bit numbers.
pub proof fn lemma_mul_u32(a: int, b: int)
    by (nonlinear_arith)
    requires
        -1 <= a <= u32::MAX,
        0 <= b <= u32::MAX,
    ensures
        -(u32::MAX as int) <= a * b <= 0xFFFF_FFFE_0000_0001,
        a >= 0 ==> a * b >= 0,
{
}

/// `value / step`, rounded up.
pub open spec fn ceil_div(value: int, step: int) -> int {
    (value + step - 1) / step
}

/// `value / step`, rounded up.
pub fn div_ceil(value: u32, step: u32) -> (r: u32)
    requires
        step > 0,
    ensures
        r == ceil_div(value as int, step as int),
        r <= value,
        value > 0 ==> r > 0,
{
    proof {
        lemma_ceil_div(value as int, step as int);
    }
    let q: u32 = value / step;
    if value % step == 0 {
        q
    } else {
        q + 1
    }
}

/// [`ceil_div`] by quotient and remainder.
pub proof fn lemma_ceil_div(value: int, step: int)
    requires
        value >= 0,
        step > 0,
    ensures
        ceil_div(value, step) == value / step + (if value % step == 0 { 0int } else { 1 }),
        0 <= ceil_div(value, step) <= value,
        value > 0 ==> ceil_div(value, step) > 0,
        value <= ceil_div(value, step) * step < value + step,
{
    let q = value / step;
    let rem = value % step;
    vstd::arithmetic::div_mod::lemma_fundamental_div_mod(value, step);
    assert(step * q == q * step) by (nonlinear_arith);
    assert((q + 1) * step == q * step + step) by (nonlinear_arith);
    if rem == 0 {
        vstd::arithmetic::div_mod::lemma_fundamental_div_mod_converse(value + step - 1, step, q, step - 1);
    } else {
        vstd::arithmetic::div_mod::lemma_fundamental_div_mod_converse(value + step - 1, step, q + 1, rem - 1);
    }
    if q == 0 {
        assert(q * step == 0) by (nonlinear_arith)
            requires
                q == 0,
        ;
    }
    assert(q >= 0 && q * step >= q) by (nonlinear_arith)
        requires
            step >= 1,
            value >= 0,
            q == value / step,
    ;
}

/// The product of three 32-bit numbers.
pub fn mul3(a: u32, b: u32, c: u32) -> (r: u128)
    ensures
        r == a * b * c,
{
    proof {
        lemma_mul_u32(a as int, b as int);
        assert(0 <= (a * b) * c <= 0xFFFF_FFFE_0000_0001 * 0xFFFF_FFFF) by (nonlinear_arith)
            requires
                0 <= a * b <= 0xFFFF_FFFE_0000_0001,
                0 <= c <= 0xFFFF_FFFF,
        ;
    }
    (a as u128 * b as u128) * c as u128
}

/// The product of a 64-bit and a 32-bit number.
pub fn mul_wide(a: u64, b: u32) -> (r: u128)
    ensures
        r == a * b,
{
    proof {
        assert(0 <= a * b <= 0xFFFF_FFFF_FFFF_FFFF * 0xFFFF_FFFF) by (nonlinear_arith)
            requires
                0 <= a <= 0xFFFF_FFFF_FFFF_FFFF,
                0 <= b <= 0xFFFF_FFFF,
        ;
    }
    a as u128 * b as u128
}

} // verus!
