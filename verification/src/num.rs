//! Integer helpers shared by the curve and fan arithmetic: truncating
//! division (the rounding the controller pipeline uses throughout) and
//! symmetric clamping.

use vstd::prelude::*;

verus! {

/// Division truncated towards zero, the behaviour of Rust's `/` on
/// primitive integers, stated over mathematical integers.
pub open spec fn div_trunc(a: int, b: int) -> int
    recommends
        b > 0,
{
    if a >= 0 {
        a / b
    } else {
        -((-a) / b)
    }
}

/// Clamp `v` into the symmetric interval `[-lim, lim]`.
pub open spec fn clamp_to(v: int, lim: int) -> int
    recommends
        lim >= 0,
{
    if v > lim {
        lim
    } else if v < -lim {
        -lim
    } else {
        v
    }
}

/// Truncating division on `i64`, computed through unsigned division so the
/// sign handling is explicit.
pub fn div_trunc_i64(a: i64, b: i64) -> (r: i64)
    requires
        b > 0,
        a != i64::MIN,
    ensures
        r == div_trunc(a as int, b as int),
{
    if a >= 0 {
        ((a as u64) / (b as u64)) as i64
    } else {
        let neg: u64 = (-a) as u64;
        -((neg / (b as u64)) as i64)
    }
}

/// Truncating division on `i128`; used where sums of many values are
/// accumulated before dividing.
pub fn div_trunc_i128(a: i128, b: i128) -> (r: i128)
    requires
        b > 0,
        a != i128::MIN,
    ensures
        r == div_trunc(a as int, b as int),
{
    if a >= 0 {
        ((a as u128) / (b as u128)) as i128
    } else {
        let neg: u128 = (-a) as u128;
        -((neg / (b as u128)) as i128)
    }
}

/// Clamp an `i64` into `[-lim, lim]`.
pub fn clamp_i64(v: i64, lim: i64) -> (r: i64)
    requires
        lim >= 0,
    ensures
        r == clamp_to(v as int, lim as int),
{
    if v > lim {
        lim
    } else if v < -lim {
        -lim
    } else {
        v
    }
}

/// Saturate an `i128` into the symmetric `i64` interval `[-lim, lim]`.
pub fn sat_i128(v: i128, lim: i64) -> (r: i64)
    requires
        lim >= 0,
    ensures
        r == clamp_to(v as int, lim as int),
{
    if v > lim as i128 {
        lim
    } else if v < -(lim as i128) {
        -lim
    } else {
        v as i64
    }
}

/// The truncating quotient, multiplied back by the divisor, stays between
/// zero and the dividend.
pub proof fn lemma_div_trunc_mul_bound(a: int, b: int)
    requires
        b > 0,
    ensures
        a >= 0 ==> 0 <= div_trunc(a, b) * b <= a,
        a < 0 ==> a <= div_trunc(a, b) * b <= 0,
{
    if a >= 0 {
        vstd::arithmetic::div_mod::lemma_fundamental_div_mod(a, b);
        vstd::arithmetic::div_mod::lemma_remainder(a, b);
        vstd::arithmetic::div_mod::lemma_div_pos_is_pos(a, b);
    } else {
        vstd::arithmetic::div_mod::lemma_fundamental_div_mod(-a, b);
        vstd::arithmetic::div_mod::lemma_remainder(-a, b);
        vstd::arithmetic::div_mod::lemma_div_pos_is_pos(-a, b);
        assert(div_trunc(a, b) * b == -(((-a) / b) * b)) by (nonlinear_arith)
            requires
                b > 0,
                a < 0,
                div_trunc(a, b) == -((-a) / b),
        ;
    }
}

/// Exact division: multiplying and dividing by the same positive value
/// returns the original.
pub proof fn lemma_div_trunc_exact(a: int, b: int)
    requires
        b > 0,
    ensures
        div_trunc(a * b, b) == a,
{
    if a >= 0 {
        assert(a * b >= 0) by (nonlinear_arith)
            requires
                a >= 0,
                b > 0,
        ;
        vstd::arithmetic::div_mod::lemma_div_multiples_vanish(a, b);
        assert(b * a == a * b);
        assert(div_trunc(a * b, b) == (a * b) / b);
        assert((a * b) / b == a);
    } else {
        assert(a * b < 0) by (nonlinear_arith)
            requires
                a < 0,
                b > 0,
        ;
        vstd::arithmetic::div_mod::lemma_div_multiples_vanish(-a, b);
        assert(b * (-a) == -(a * b)) by (nonlinear_arith);
        assert(div_trunc(a * b, b) == -((-(a * b)) / b));
        assert((-(a * b)) / b == (b * (-a)) / b);
        assert(div_trunc(a * b, b) == a);
    }
}

/// A product of two values bounded in magnitude is bounded by the product
/// of the bounds.
pub proof fn lemma_mul_bounds_abs(x: int, y: int, bx: int, by: int)
    requires
        -bx <= x <= bx,
        -by <= y <= by,
        0 <= bx,
        0 <= by,
    ensures
        -(bx * by) <= x * y <= bx * by,
{
    assert(-(bx * by) <= x * y <= bx * by) by (nonlinear_arith)
        requires
            -bx <= x <= bx,
            -by <= y <= by,
            0 <= bx,
            0 <= by,
    ;
}

/// The magnitude of a truncating quotient never exceeds the magnitude of
/// the dividend scaled down by the (positive) divisor.
pub proof fn lemma_div_trunc_bounds(a: int, b: int)
    requires
        b > 0,
    ensures
        a >= 0 ==> 0 <= div_trunc(a, b) <= a,
        a < 0 ==> a <= div_trunc(a, b) <= 0,
{
    if a >= 0 {
        vstd::arithmetic::div_mod::lemma_div_nonincreasing(a, b);
        vstd::arithmetic::div_mod::lemma_div_pos_is_pos(a, b);
    } else {
        vstd::arithmetic::div_mod::lemma_div_nonincreasing(-a, b);
        vstd::arithmetic::div_mod::lemma_div_pos_is_pos(-a, b);
    }
}

} // verus!
