//! Integer helpers shared by the coordinate code: Rust's truncating signed
//! division as a spec function, and the lemmas about it that the fitting
//! proofs use.
use vstd::prelude::*;
use vstd::arithmetic::div_mod::{
    lemma_div_is_ordered,
    lemma_fundamental_div_mod,
    lemma_fundamental_div_mod_converse,
    lemma_div_pos_is_pos,
};

verus! {

/// Division rounding toward zero, as `/` does on Rust's signed integers.
pub open spec fn tdiv(a: int, b: int) -> int {
    if a >= 0 {
        a / b
    } else {
        -((-a) / b)
    }
}

/// The value fits in an `i64`.
pub open spec fn in_i64(v: int) -> bool {
    i64::MIN <= v <= i64::MAX
}

/// `v.max(1)`.
pub open spec fn at_least_one(v: int) -> int {
    if v >= 1 {
        v
    } else {
        1
    }
}

/// `v.max(0)`.
pub open spec fn at_least_zero(v: int) -> int {
    if v >= 0 {
        v
    } else {
        0
    }
}

/// `v.clamp(lo, hi)` for `lo <= hi`.
pub open spec fn clamp(v: int, lo: int, hi: int) -> int {
    if v < lo {
        lo
    } else if v > hi {
        hi
    } else {
        v
    }
}

/// Truncating division by a positive divisor is monotone in the dividend.
pub proof fn lemma_tdiv_monotone(a: int, b: int, d: int)
    requires
        d > 0,
        a <= b,
    ensures
        tdiv(a, d) <= tdiv(b, d),
{
    if a >= 0 {
        lemma_div_is_ordered(a, b, d);
    } else if b >= 0 {
        lemma_div_pos_is_pos(-a, d);
        lemma_div_pos_is_pos(b, d);
    } else {
        lemma_div_is_ordered(-b, -a, d);
    }
}

/// For a non-negative dividend, truncating division is floor division and
/// lies between zero and the dividend.
pub proof fn lemma_tdiv_nonneg(a: int, d: int)
    requires
        a >= 0,
        d > 0,
    ensures
        tdiv(a, d) == a / d,
        0 <= a / d <= a,
        (a / d) * d <= a < (a / d) * d + d,
{
    lemma_fundamental_div_mod(a, d);
    lemma_div_pos_is_pos(a, d);
    assert((a / d) * d <= a < (a / d) * d + d) by (nonlinear_arith)
        requires
            a == d * (a / d) + a % d,
            0 <= a % d < d,
    ;
    assert(a / d <= a) by (nonlinear_arith)
        requires
            (a / d) * d <= a,
            a / d >= 0,
            d > 0,
    ;
}

/// `a * d / d == a` for a non-negative `a` and positive `d`.
pub proof fn lemma_mul_div_cancel(a: int, d: int)
    requires
        a >= 0,
        d > 0,
    ensures
        (a * d) / d == a,
        tdiv(a * d, d) == a,
{
    assert(a * d >= 0) by (nonlinear_arith)
        requires
            a >= 0,
            d > 0,
    ;
    lemma_tdiv_nonneg(a * d, d);
    let q = (a * d) / d;
    assert(q == a) by (nonlinear_arith)
        requires
            q * d <= a * d < q * d + d,
            d > 0,
    ;
}

/// If `p <= q * d` with `d > 0` and `p, q >= 0`, then `p / d <= q`; if
/// `p >= q * d` then `p / d >= q`.
pub proof fn lemma_div_bounds(p: int, q: int, d: int)
    requires
        p >= 0,
        q >= 0,
        d > 0,
    ensures
        p <= q * d ==> p / d <= q,
        p >= q * d ==> p / d >= q,
{
    lemma_tdiv_nonneg(p, d);
    let r = p / d;
    assert(p <= q * d ==> r <= q) by (nonlinear_arith)
        requires
            r * d <= p,
            d > 0,
    ;
    assert(p >= q * d ==> r >= q) by (nonlinear_arith)
        requires
            p < r * d + d,
            d > 0,
    ;
}


/// Scaling dividend and divisor by the same positive factor leaves the
/// truncating quotient unchanged.
pub proof fn lemma_tdiv_scale(a: int, b: int, k: int)
    requires
        b > 0,
        k > 0,
    ensures
        tdiv(a * k, b * k) == tdiv(a, b),
{
    let m = if a >= 0 { a } else { -a };
    lemma_fundamental_div_mod(m, b);
    let q = m / b;
    let r = m % b;
    assert(m * k == (b * k) * q + r * k && 0 <= r * k < b * k) by (nonlinear_arith)
        requires
            m == b * q + r,
            0 <= r < b,
            k > 0,
    ;
    lemma_fundamental_div_mod_converse(m * k, b * k, q, r * k);
    if a >= 0 {
        assert(a * k >= 0) by (nonlinear_arith)
            requires
                a >= 0,
                k > 0,
        ;
    } else {
        assert(a * k < 0 && -(a * k) == m * k) by (nonlinear_arith)
            requires
                a < 0,
                k > 0,
                m == -a,
        ;
    }
}

} // verus!
