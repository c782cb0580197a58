//! Small arithmetic helpers shared by the heuristic tables: truncating
//! (round-toward-zero) division, as Rust's `/` computes it, and clamping.

use vstd::prelude::*;

verus! {

use vstd::arithmetic::div_mod::{lemma_div_nonincreasing, lemma_div_pos_is_pos};

/// Division rounding toward zero, the semantics of Rust's `/` on signed
/// integers, for a positive divisor.
pub open spec fn tdiv(a: int, b: int) -> int {
    if a == 0 {
        0
    } else if a > 0 {
        a / b
    } else {
        -((-a) / b)
    }
}

/// `x` clamped to `[lo, hi]`.
pub open spec fn clamp_spec(x: int, lo: int, hi: int) -> int {
    if x < lo {
        lo
    } else if x > hi {
        hi
    } else {
        x
    }
}

/// Truncating division never grows the magnitude of the dividend.
pub proof fn lemma_tdiv_magnitude(a: int, b: int)
    requires
        b >= 1,
    ensures
        a >= 0 ==> 0 <= tdiv(a, b) <= a,
        a < 0 ==> a <= tdiv(a, b) <= 0,
{
    if a > 0 {
        lemma_div_nonincreasing(a, b);
        lemma_div_pos_is_pos(a, b);
    } else if a < 0 {
        lemma_div_nonincreasing(-a, b);
        lemma_div_pos_is_pos(-a, b);
    }
}

/// A dividend below `b * d` has quotient below `b`.
pub proof fn lemma_div_below(x: int, d: int, b: int)
    requires
        d >= 1,
        b >= 0,
        0 <= x,
        x < b * d,
    ensures
        x / d < b,
{
    vstd::arithmetic::div_mod::lemma_fundamental_div_mod(x, d);
    vstd::arithmetic::div_mod::lemma_mod_bound(x, d);
    if x / d >= b {
        vstd::arithmetic::mul::lemma_mul_inequality(b, x / d, d);
        assert(d * (x / d) == (x / d) * d) by (nonlinear_arith);
        assert(false);
    }
}

/// `a / b` on `i32`, with its truncating semantics stated exactly.
pub fn div_trunc(a: i32, b: i32) -> (r: i32)
    requires
        b >= 1,
    ensures
        r == tdiv(a as int, b as int),
{
    proof {
        lemma_tdiv_magnitude(a as int, b as int);
    }
    let q = a.checked_div(b);
    q.unwrap()
}

/// `x` clamped to `[lo, hi]`.
pub fn clamp_i32(x: i32, lo: i32, hi: i32) -> (r: i32)
    requires
        lo <= hi,
    ensures
        r == clamp_spec(x as int, lo as int, hi as int),
{
    if x < lo {
        lo
    } else if x > hi {
        hi
    } else {
        x
    }
}

} // verus!
