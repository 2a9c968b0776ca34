//! Fixed-point circle functions.
//!
//! Cosine and sine are evaluated by quadrant reduction and a short Taylor
//! polynomial on the first half-quadrant.  The verified contracts bound the
//! results to the unit range; the numeric accuracy of the polynomial is
//! exercised by the runtime tests against floating-point references.

use vstd::prelude::*;

verus! {

use crate::fx::{
    FX_ONE, fx_mul, fx_mul_spec, clamp_i64, clamp_spec, tdiv, lemma_mul_abs_bound,
    lemma_tdiv_bounds, lemma_tdiv_sign,
};

/// A quarter turn, `pi/4` in the fixed-point scale.
pub const QUARTER_PI_FX: i64 = 823550;

/// Half `pi` in the fixed-point scale.
pub const HALF_PI_FX: i64 = 1647099;

/// `pi` in the fixed-point scale.
pub const PI_FX: i64 = 3294199;

/// `3 pi / 2` in the fixed-point scale.
pub const PI_1_5_FX: i64 = 4941298;

/// `2 pi` in the fixed-point scale.
pub const TWO_PI_FX: i64 = 6588397;


/// Exact value of `cos_quarter`: the clamped Taylor polynomial evaluated in
/// truncating fixed-point arithmetic.
pub open spec fn cos_quarter_spec(x: int) -> int {
    let t = fx_mul_spec(x, x);
    let t2 = fx_mul_spec(t, t);
    let t3 = fx_mul_spec(t2, t);
    clamp_spec((FX_ONE as int) - t / 2 + t2 / 24 - t3 / 720, 0, FX_ONE as int)
}

/// Exact value of `sin_quarter`.
pub open spec fn sin_quarter_spec(x: int) -> int {
    let t = fx_mul_spec(x, x);
    let t2 = fx_mul_spec(t, t);
    let t3 = fx_mul_spec(t2, t);
    clamp_spec(
        fx_mul_spec(x, (FX_ONE as int) - t / 6 + t2 / 120 - t3 / 5040),
        0,
        FX_ONE as int,
    )
}

/// Reflection of a first-quadrant argument about `pi/4`.
pub open spec fn quarter_reflect_spec(r: int) -> int {
    if r >= HALF_PI_FX as int {
        0
    } else {
        HALF_PI_FX as int - r
    }
}

/// Exact cosine on a first-quadrant argument.
pub open spec fn quarter_cos_spec(r: int) -> int {
    if r > QUARTER_PI_FX as int {
        sin_quarter_spec(quarter_reflect_spec(r))
    } else {
        cos_quarter_spec(r)
    }
}

/// Exact sine on a first-quadrant argument.
pub open spec fn quarter_sin_spec(r: int) -> int {
    if r > QUARTER_PI_FX as int {
        cos_quarter_spec(quarter_reflect_spec(r))
    } else {
        sin_quarter_spec(r)
    }
}

/// Exact cosine of an angle in `[0, 2 pi)`.
pub open spec fn turn_cos_spec(x: int) -> int {
    if x < HALF_PI_FX as int {
        quarter_cos_spec(x)
    } else if x < PI_FX as int {
        -quarter_sin_spec(x - HALF_PI_FX as int)
    } else if x < PI_1_5_FX as int {
        -quarter_cos_spec(x - PI_FX as int)
    } else {
        quarter_sin_spec(x - PI_1_5_FX as int)
    }
}

/// Exact sine of an angle in `[0, 2 pi)`.
pub open spec fn turn_sin_spec(x: int) -> int {
    if x < HALF_PI_FX as int {
        quarter_sin_spec(x)
    } else if x < PI_FX as int {
        quarter_cos_spec(x - HALF_PI_FX as int)
    } else if x < PI_1_5_FX as int {
        -quarter_sin_spec(x - PI_FX as int)
    } else {
        -quarter_cos_spec(x - PI_1_5_FX as int)
    }
}

/// Exact half-angle cosine used by the orbit composition.
pub open spec fn half_cos_spec(angle: int) -> int {
    let h = tdiv(angle, 2);
    if h >= 0 {
        cos_quarter_spec(h)
    } else {
        cos_quarter_spec(-h)
    }
}

/// Exact half-angle sine used by the orbit composition.
pub open spec fn half_sin_spec(angle: int) -> int {
    let h = tdiv(angle, 2);
    if h >= 0 {
        sin_quarter_spec(h)
    } else {
        -sin_quarter_spec(-h)
    }
}

/// Taylor cosine on `[0, pi/4]`, clamped into the unit range.
pub fn cos_quarter(x: i64) -> (r: i64)
    requires
        0 <= x <= 823551,
    ensures
        0 <= r <= FX_ONE,
        r as int == cos_quarter_spec(x as int),
{
    proof {
        lemma_mul_abs_bound(x as int, x as int, 823551, 823551);
        lemma_tdiv_sign((x as int) * (x as int), FX_ONE as int);
        assert((x as int) * (x as int) >= 0) by (nonlinear_arith);
        lemma_tdiv_bounds((x as int) * (x as int), FX_ONE as int, 678256249601);
    }
    let t: i64 = fx_mul(x, x);
    proof {
        lemma_mul_abs_bound(t as int, t as int, 646850, 646850);
        lemma_tdiv_sign((t as int) * (t as int), FX_ONE as int);
        assert((t as int) * (t as int) >= 0) by (nonlinear_arith);
        lemma_tdiv_bounds((t as int) * (t as int), FX_ONE as int, 418414922500);
    }
    let t2: i64 = fx_mul(t, t);
    proof {
        lemma_mul_abs_bound(t2 as int, t as int, 399050, 646850);
        lemma_tdiv_sign((t2 as int) * (t as int), FX_ONE as int);
        assert((t2 as int) * (t as int) >= 0) by (nonlinear_arith)
            requires
                t2 >= 0,
                t >= 0,
        ;
        lemma_tdiv_bounds((t2 as int) * (t as int), FX_ONE as int, 258125494250);
    }
    let t3: i64 = fx_mul(t2, t);
    let raw: i64 = FX_ONE - t / 2 + t2 / 24 - t3 / 720;
    clamp_i64(raw, 0, FX_ONE)
}

/// Taylor sine on `[0, pi/4]`, clamped into the unit range.
pub fn sin_quarter(x: i64) -> (r: i64)
    requires
        0 <= x <= 823551,
    ensures
        0 <= r <= FX_ONE,
        r as int == sin_quarter_spec(x as int),
{
    proof {
        lemma_mul_abs_bound(x as int, x as int, 823551, 823551);
        lemma_tdiv_sign((x as int) * (x as int), FX_ONE as int);
        assert((x as int) * (x as int) >= 0) by (nonlinear_arith);
        lemma_tdiv_bounds((x as int) * (x as int), FX_ONE as int, 678256249601);
    }
    let t: i64 = fx_mul(x, x);
    proof {
        lemma_mul_abs_bound(t as int, t as int, 646850, 646850);
        lemma_tdiv_sign((t as int) * (t as int), FX_ONE as int);
        assert((t as int) * (t as int) >= 0) by (nonlinear_arith);
        lemma_tdiv_bounds((t as int) * (t as int), FX_ONE as int, 418414922500);
    }
    let t2: i64 = fx_mul(t, t);
    proof {
        lemma_mul_abs_bound(t2 as int, t as int, 399050, 646850);
        lemma_tdiv_sign((t2 as int) * (t as int), FX_ONE as int);
        assert((t2 as int) * (t as int) >= 0) by (nonlinear_arith)
            requires
                t2 >= 0,
                t >= 0,
        ;
        lemma_tdiv_bounds((t2 as int) * (t as int), FX_ONE as int, 258125494250);
    }
    let t3: i64 = fx_mul(t2, t);
    let poly: i64 = FX_ONE - t / 6 + t2 / 120 - t3 / 5040;
    proof {
        lemma_mul_abs_bound(x as int, poly as int, 823551, 1100000);
        lemma_tdiv_bounds((x as int) * (poly as int), FX_ONE as int, 905906100000);
    }
    let raw: i64 = fx_mul(x, poly);
    clamp_i64(raw, 0, FX_ONE)
}

/// Cosine and sine on a first-quadrant argument, by reflection about `pi/4`.
pub fn quarter_cos_sin(r: i64) -> (cs: (i64, i64))
    requires
        0 <= r <= 1647100,
    ensures
        0 <= cs.0 <= FX_ONE,
        0 <= cs.1 <= FX_ONE,
        cs.0 as int == quarter_cos_spec(r as int),
        cs.1 as int == quarter_sin_spec(r as int),
{
    if r > QUARTER_PI_FX {
        let rr: i64 = if r >= HALF_PI_FX {
            0
        } else {
            HALF_PI_FX - r
        };
        let c: i64 = sin_quarter(rr);
        let s: i64 = cos_quarter(rr);
        (c, s)
    } else {
        let c: i64 = cos_quarter(r);
        let s: i64 = sin_quarter(r);
        (c, s)
    }
}

/// Cosine and sine of an angle in `[0, 2 pi)`, by quadrant reduction.
pub fn cos_sin_turn(x: i64) -> (cs: (i64, i64))
    requires
        0 <= x < TWO_PI_FX,
    ensures
        -FX_ONE <= cs.0 <= FX_ONE,
        -FX_ONE <= cs.1 <= FX_ONE,
        cs.0 as int == turn_cos_spec(x as int),
        cs.1 as int == turn_sin_spec(x as int),
{
    if x < HALF_PI_FX {
        let (c, s) = quarter_cos_sin(x);
        (c, s)
    } else if x < PI_FX {
        let (c, s) = quarter_cos_sin(x - HALF_PI_FX);
        (-s, c)
    } else if x < PI_1_5_FX {
        let (c, s) = quarter_cos_sin(x - PI_FX);
        (-c, -s)
    } else {
        let (c, s) = quarter_cos_sin(x - PI_1_5_FX);
        (s, -c)
    }
}

/// Cosine and sine of the angle `2 pi i / n`: the `i`-th of `n` points on
/// the unit circle, counted counter-clockwise from the positive axis.
pub fn circle_point(i: u32, n: u32) -> (cs: (i64, i64))
    requires
        3 <= n <= 512,
        i < n,
    ensures
        -FX_ONE <= cs.0 <= FX_ONE,
        -FX_ONE <= cs.1 <= FX_ONE,
        ({
            let a = clamp_spec(tdiv(TWO_PI_FX as int * i, n as int), 0, TWO_PI_FX as int - 1);
            cs.0 as int == turn_cos_spec(a) && cs.1 as int == turn_sin_spec(a)
        }),
{
    let num: i64 = TWO_PI_FX * (i as i64);
    let ang: i64 = num / (n as i64);
    proof {
        lemma_tdiv_sign(num as int, n as int);
        lemma_tdiv_bounds(num as int, n as int, 0x4000000000000000);
    }
    let a: i64 = clamp_i64(ang, 0, TWO_PI_FX - 1);
    cos_sin_turn(a)
}

/// Cosine and sine of a half rotation step: `angle` is a full incremental
/// rotation no larger than the per-frame clamp, and the returned pair is
/// `(cos(angle/2), sin(angle/2))` with the sign of `angle` carried by the
/// sine.
pub fn half_angle_cos_sin(angle: i64) -> (cs: (i64, i64))
    requires
        -1647000 <= angle <= 1647000,
    ensures
        0 <= cs.0 <= FX_ONE,
        -FX_ONE <= cs.1 <= FX_ONE,
        cs.0 as int == half_cos_spec(angle as int),
        cs.1 as int == half_sin_spec(angle as int),
{
    let h: i64 = if angle >= 0 {
        angle / 2
    } else {
        -((-angle) / 2)
    };
    if h >= 0 {
        let c: i64 = cos_quarter(h);
        let s: i64 = sin_quarter(h);
        (c, s)
    } else {
        let c: i64 = cos_quarter(-h);
        let s: i64 = sin_quarter(-h);
        (c, -s)
    }
}

} // verus!
