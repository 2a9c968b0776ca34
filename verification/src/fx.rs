//! Fixed-point scalar arithmetic.
//!
//! A scalar carries 20 fractional bits inside an `i64`: the value `v`
//! represents the real number `v / FX_ONE`.  Products are computed in
//! `i128` and rescaled with a division that truncates toward zero, so every
//! executable operation has an exact integer specification.

use vstd::prelude::*;

verus! {

use vstd::arithmetic::div_mod::{
    lemma_div_is_ordered,
    lemma_div_multiples_vanish,
    lemma_div_nonincreasing,
    lemma_div_pos_is_pos,
    lemma_fundamental_div_mod,
    lemma_mod_bound,
};

/// One whole unit: fixed-point values carry 20 fractional bits.
pub const FX_ONE: i64 = 1048576;

/// `FX_ONE * FX_ONE`, the scale a product of two raw values carries.
pub const FX_ONE_SQ: i64 = 1099511627776;

/// Truncating (round-toward-zero) division by a positive divisor.
pub open spec fn tdiv(a: int, b: int) -> int
    recommends
        b > 0,
{
    if a >= 0 {
        a / b
    } else {
        -((-a) / b)
    }
}

/// The fixed-point product: `a * b` rescaled down by one factor of `FX_ONE`.
pub open spec fn fx_mul_spec(a: int, b: int) -> int {
    tdiv(a * b, FX_ONE as int)
}

pub open spec fn clamp_spec(x: int, lo: int, hi: int) -> int {
    if x < lo {
        lo
    } else if x > hi {
        hi
    } else {
        x
    }
}

/// The product of two values bounded in magnitude is bounded by the product
/// of the bounds.
pub proof fn lemma_mul_abs_bound(a: int, b: int, aa: int, bb: int)
    by (nonlinear_arith)
    requires
        -aa <= a <= aa,
        -bb <= b <= bb,
    ensures
        -(aa * bb) <= a * b <= aa * bb,
{
}

/// Truncating division shrinks magnitudes: a bound on the dividend bounds
/// the quotient, both directly and after division of the bound itself.
pub proof fn lemma_tdiv_bounds(a: int, b: int, m: int)
    requires
        b >= 1,
        0 <= m,
        -m <= a <= m,
    ensures
        -(m / b) <= tdiv(a, b) <= m / b,
        -m <= tdiv(a, b) <= m,
{
    if a >= 0 {
        lemma_div_pos_is_pos(a, b);
        lemma_div_is_ordered(a, m, b);
        lemma_div_nonincreasing(m, b);
        lemma_div_pos_is_pos(m, b);
    } else {
        lemma_div_pos_is_pos(-a, b);
        lemma_div_is_ordered(-a, m, b);
        lemma_div_nonincreasing(m, b);
        lemma_div_pos_is_pos(m, b);
    }
}

/// Truncating division never flips the sign of the dividend.
pub proof fn lemma_tdiv_sign(a: int, b: int)
    requires
        b >= 1,
    ensures
        a >= 0 ==> tdiv(a, b) >= 0,
        a <= 0 ==> tdiv(a, b) <= 0,
{
    if a >= 0 {
        lemma_div_pos_is_pos(a, b);
    } else {
        lemma_div_pos_is_pos(-a, b);
    }
}

/// Rescales a wide product down by `FX_ONE`, truncating toward zero.
pub fn fx_scale_down(p: i128) -> (r: i64)
    requires
        -0x400000000000000000000 <= p <= 0x400000000000000000000,
    ensures
        r as int == tdiv(p as int, FX_ONE as int),
{
    proof {
        lemma_tdiv_bounds(p as int, FX_ONE as int, 0x400000000000000000000);
        assert(0x400000000000000000000int / (FX_ONE as int) == 0x4000000000000000int);
    }
    if p >= 0 {
        let q: u128 = (p as u128) / (FX_ONE as u128);
        q as i64
    } else {
        let q: u128 = ((-p) as u128) / (FX_ONE as u128);
        -(q as i64)
    }
}

/// Truncating division of a wide value by a positive narrow divisor.
pub fn div_trunc(a: i128, n: i64) -> (r: i64)
    requires
        n >= 1,
        -0x4000000000000000 <= a <= 0x4000000000000000,
    ensures
        r as int == tdiv(a as int, n as int),
        -0x4000000000000000 <= r <= 0x4000000000000000,
{
    proof {
        lemma_tdiv_bounds(a as int, n as int, 0x4000000000000000);
    }
    if a >= 0 {
        let q: u128 = (a as u128) / (n as u128);
        q as i64
    } else {
        let q: u128 = ((-a) as u128) / (n as u128);
        -(q as i64)
    }
}

/// Fixed-point multiplication with exact truncating semantics.
pub fn fx_mul(a: i64, b: i64) -> (r: i64)
    requires
        -0x400000000000000000000 <= (a as int) * (b as int) <= 0x400000000000000000000,
    ensures
        r as int == fx_mul_spec(a as int, b as int),
{
    let p: i128 = (a as i128) * (b as i128);
    fx_scale_down(p)
}

pub fn clamp_i64(x: i64, lo: i64, hi: i64) -> (r: i64)
    requires
        lo <= hi,
    ensures
        r as int == clamp_spec(x as int, lo as int, hi as int),
        lo <= r <= hi,
{
    if x < lo {
        lo
    } else if x > hi {
        hi
    } else {
        x
    }
}

/// Integer square root: the greatest `r` with `r * r <= m`.
pub fn isqrt_u128(m: u128) -> (r: u128)
    ensures
        (r as int) * (r as int) <= m as int,
        (m as int) < ((r as int) + 1) * ((r as int) + 1),
        r < 0x10000000000000000,
{
    let mut lo: u128 = 0;
    let mut hi: u128 = 0x10000000000000000;
    proof {
        assert((hi as int) * (hi as int) > m as int) by (nonlinear_arith)
            requires
                hi == 0x10000000000000000,
                m <= 0xffffffffffffffffffffffffffffffff,
        ;
    }
    while lo + 1 < hi
        invariant
            (lo as int) * (lo as int) <= m as int,
            (hi as int) * (hi as int) > m as int,
            lo < hi <= 0x10000000000000000,
        decreases hi - lo,
    {
        let mid: u128 = lo + (hi - lo) / 2;
        proof {
            assert((mid as int) * (mid as int) < 0xffffffffffffffffffffffffffffffff)
                by (nonlinear_arith)
                requires
                    mid < 0x10000000000000000,
            ;
        }
        if mid * mid <= m {
            lo = mid;
        } else {
            hi = mid;
        }
    }
    proof {
        assert(hi == lo + 1);
    }
    lo
}

/// One rescaled component of a normalization: when `q * q` is below
/// `(n + 1) * (n + 1)`, the value `tdiv(q * FX_ONE, n)` stays in the unit
/// range, and its square times `n * n` brackets `q * q * FX_ONE_SQ` to
/// within `(2 * FX_ONE + 1) * n * n`.
pub proof fn lemma_scale_div_window(q: int, n: int)
    requires
        n >= 1,
        q * q < (n + 1) * (n + 1),
    ensures
        ({
            let m = tdiv(q * (FX_ONE as int), n);
            &&& -(FX_ONE as int) <= m <= FX_ONE as int
            &&& m * m * (n * n) <= q * q * (FX_ONE_SQ as int)
            &&& q * q * (FX_ONE_SQ as int) < m * m * (n * n) + 2097153 * (n * n)
        }),
{
    let s = FX_ONE as int;
    let u = if q >= 0 {
        q
    } else {
        -q
    };
    assert(u == q || u == -q);
    assert(u * u == q * q) by (nonlinear_arith)
        requires
            u == q || u == -q,
    ;
    assert(u <= n) by (nonlinear_arith)
        requires
            u >= 0,
            n >= 1,
            u * u < (n + 1) * (n + 1),
    ;
    let d = (u * s) / n;
    lemma_div_pos_is_pos(u * s, n);
    lemma_fundamental_div_mod(u * s, n);
    lemma_mod_bound(u * s, n);
    lemma_div_is_ordered(u * s, n * s, n);
    lemma_div_multiples_vanish(s, n);
    assert((n * s) / n == s);
    assert(d <= s);
    let m = tdiv(q * s, n);
    if q >= 0 {
        assert(m == d);
    } else {
        assert(q * s == -(u * s));
        assert(m == -d);
    }
    assert(m == d || m == -d);
    assert(m * m == d * d) by (nonlinear_arith)
        requires
            m == d || m == -d,
    ;
    assert(n * d <= u * s);
    assert(u * s < n * d + n);
    assert(d * d * (n * n) <= (u * s) * (u * s)) by (nonlinear_arith)
        requires
            d >= 0,
            n >= 1,
            n * d <= u * s,
    ;
    assert((u * s) * (u * s) == u * u * (FX_ONE_SQ as int)) by (nonlinear_arith)
        requires
            s == FX_ONE as int,
            FX_ONE == 1048576,
            FX_ONE_SQ == 1099511627776,
    ;
    assert((u * s) * (u * s) < d * d * (n * n) + 2 * d * (n * n) + (n * n)) by (nonlinear_arith)
        requires
            u * s < n * d + n,
            u * s >= 0,
            d >= 0,
            n >= 1,
    ;
    assert(2 * d * (n * n) <= 2 * s * (n * n)) by (nonlinear_arith)
        requires
            d <= s,
            n >= 1,
    ;
    assert(2 * s * (n * n) + (n * n) == 2097153 * (n * n)) by (nonlinear_arith)
        requires
            s == 1048576,
    ;
}

/// Truncating division loses less than one divisor step: multiplying the
/// quotient back misses the dividend by at most `b - 1`.
pub proof fn lemma_tdiv_mul_err(a: int, b: int)
    requires
        b >= 1,
    ensures
        -(b - 1) <= tdiv(a, b) * b - a <= b - 1,
{
    if a >= 0 {
        lemma_fundamental_div_mod(a, b);
        lemma_mod_bound(a, b);
        assert(tdiv(a, b) * b == b * (a / b)) by (nonlinear_arith)
            requires
                tdiv(a, b) == a / b,
        ;
    } else {
        lemma_fundamental_div_mod(-a, b);
        lemma_mod_bound(-a, b);
        assert(tdiv(a, b) * b == -(((-a) / b) * b)) by (nonlinear_arith)
            requires
                tdiv(a, b) == -((-a) / b),
        ;
        assert(((-a) / b) * b == b * ((-a) / b)) by (nonlinear_arith);
    }
}

} // verus!
