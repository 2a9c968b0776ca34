//! Fixed-point 3-vectors.
//!
//! Components share the scalar encoding of `crate::fx`.  Every operation has
//! an exact integer specification; normalization checks its own result and
//! falls back to a caller-supplied unit vector when the input is degenerate,
//! which mirrors the cached-reference-vector strategy of the camera.

use vstd::prelude::*;

verus! {

use crate::fx::{
    FX_ONE, FX_ONE_SQ, tdiv, fx_mul_spec, fx_scale_down, div_trunc, fx_mul, isqrt_u128,
    lemma_mul_abs_bound, lemma_tdiv_bounds, lemma_scale_div_window,
};

/// Tolerance on the squared norm of a vector that counts as unit length.
pub const VEC_TOL: i64 = 33554432;

#[derive(Clone, Copy, PartialEq, Eq, Structural, Debug)]
pub struct Vec3 {
    pub x: i64,
    pub y: i64,
    pub z: i64,
}

pub open spec fn in_range(v: Vec3, m: int) -> bool {
    &&& -m <= v.x <= m
    &&& -m <= v.y <= m
    &&& -m <= v.z <= m
}

pub open spec fn norm_sq_spec(v: Vec3) -> int {
    (v.x as int) * (v.x as int) + (v.y as int) * (v.y as int) + (v.z as int) * (v.z as int)
}

/// A vector whose length is one unit, within `VEC_TOL` on the squared norm.
pub open spec fn nearly_unit(v: Vec3) -> bool {
    &&& (FX_ONE_SQ - VEC_TOL) as int <= norm_sq_spec(v) <= (FX_ONE_SQ + VEC_TOL) as int
    &&& in_range(v, FX_ONE as int)
}

pub open spec fn vadd_spec(a: Vec3, b: Vec3) -> Vec3 {
    Vec3 { x: (a.x + b.x) as i64, y: (a.y + b.y) as i64, z: (a.z + b.z) as i64 }
}

pub open spec fn vsub_spec(a: Vec3, b: Vec3) -> Vec3 {
    Vec3 { x: (a.x - b.x) as i64, y: (a.y - b.y) as i64, z: (a.z - b.z) as i64 }
}

pub open spec fn vneg_spec(v: Vec3) -> Vec3 {
    Vec3 { x: (-v.x) as i64, y: (-v.y) as i64, z: (-v.z) as i64 }
}

pub open spec fn scale_spec(v: Vec3, k: int) -> Vec3 {
    Vec3 {
        x: fx_mul_spec(v.x as int, k) as i64,
        y: fx_mul_spec(v.y as int, k) as i64,
        z: fx_mul_spec(v.z as int, k) as i64,
    }
}

pub open spec fn dot_wide_spec(a: Vec3, b: Vec3) -> int {
    (a.x as int) * (b.x as int) + (a.y as int) * (b.y as int) + (a.z as int) * (b.z as int)
}

pub open spec fn cross_spec(a: Vec3, b: Vec3) -> Vec3 {
    Vec3 {
        x: tdiv((a.y as int) * (b.z as int) - (a.z as int) * (b.y as int), FX_ONE as int) as i64,
        y: tdiv((a.z as int) * (b.x as int) - (a.x as int) * (b.z as int), FX_ONE as int) as i64,
        z: tdiv((a.x as int) * (b.y as int) - (a.y as int) * (b.x as int), FX_ONE as int) as i64,
    }
}

/// Each component scaled up by `FX_ONE` and divided by `n`, truncating.
pub open spec fn scale_div_spec(v: Vec3, n: int) -> Vec3 {
    Vec3 {
        x: tdiv((v.x as int) * (FX_ONE as int), n) as i64,
        y: tdiv((v.y as int) * (FX_ONE as int), n) as i64,
        z: tdiv((v.z as int) * (FX_ONE as int), n) as i64,
    }
}

/// `FX_ONE * FX_ONE == FX_ONE_SQ`, stated once so that callers need no
/// nonlinear reasoning of their own.
pub proof fn lemma_fx_one_sq()
    ensures
        (FX_ONE as int) * (FX_ONE as int) == FX_ONE_SQ as int,
{
    assert((FX_ONE as int) * (FX_ONE as int) == FX_ONE_SQ as int) by (nonlinear_arith);
}

pub fn unit_x() -> (r: Vec3)
    ensures
        r == (Vec3 { x: FX_ONE, y: 0, z: 0 }),
        nearly_unit(r),
{
    proof {
        lemma_fx_one_sq();
    }
    Vec3 { x: FX_ONE, y: 0, z: 0 }
}

pub fn unit_y() -> (r: Vec3)
    ensures
        r == (Vec3 { x: 0, y: FX_ONE, z: 0 }),
        nearly_unit(r),
{
    proof {
        lemma_fx_one_sq();
    }
    Vec3 { x: 0, y: FX_ONE, z: 0 }
}

pub fn unit_z() -> (r: Vec3)
    ensures
        r == (Vec3 { x: 0, y: 0, z: FX_ONE }),
        nearly_unit(r),
{
    proof {
        lemma_fx_one_sq();
    }
    Vec3 { x: 0, y: 0, z: FX_ONE }
}

pub fn vadd(a: Vec3, b: Vec3) -> (r: Vec3)
    requires
        in_range(a, 0x2000000000000000),
        in_range(b, 0x2000000000000000),
    ensures
        r == vadd_spec(a, b),
{
    Vec3 { x: a.x + b.x, y: a.y + b.y, z: a.z + b.z }
}

pub fn vsub(a: Vec3, b: Vec3) -> (r: Vec3)
    requires
        in_range(a, 0x2000000000000000),
        in_range(b, 0x2000000000000000),
    ensures
        r == vsub_spec(a, b),
{
    Vec3 { x: a.x - b.x, y: a.y - b.y, z: a.z - b.z }
}

pub fn vneg(v: Vec3) -> (r: Vec3)
    requires
        in_range(v, 0x4000000000000000),
    ensures
        r == vneg_spec(v),
{
    Vec3 { x: -v.x, y: -v.y, z: -v.z }
}

pub fn scale(v: Vec3, k: i64) -> (r: Vec3)
    requires
        in_range(v, 0x20000000000),
        -0x20000000000 <= k <= 0x20000000000,
    ensures
        r == scale_spec(v, k as int),
{
    proof {
        lemma_mul_abs_bound(v.x as int, k as int, 0x20000000000, 0x20000000000);
        lemma_mul_abs_bound(v.y as int, k as int, 0x20000000000, 0x20000000000);
        lemma_mul_abs_bound(v.z as int, k as int, 0x20000000000, 0x20000000000);
    }
    Vec3 { x: fx_mul(v.x, k), y: fx_mul(v.y, k), z: fx_mul(v.z, k) }
}

/// A bound on the components of a scaled vector, derived from bounds on the
/// inputs.
pub proof fn lemma_scale_range(v: Vec3, k: int, mv: int, mk: int)
    requires
        0 <= mv,
        0 <= mk,
        in_range(v, mv),
        -mk <= k <= mk,
    ensures
        in_range(scale_spec(v, k), mv * mk / (FX_ONE as int) + 1),
{
    lemma_mul_abs_bound(v.x as int, k, mv, mk);
    lemma_mul_abs_bound(v.y as int, k, mv, mk);
    lemma_mul_abs_bound(v.z as int, k, mv, mk);
    lemma_tdiv_bounds((v.x as int) * k, FX_ONE as int, mv * mk);
    lemma_tdiv_bounds((v.y as int) * k, FX_ONE as int, mv * mk);
    lemma_tdiv_bounds((v.z as int) * k, FX_ONE as int, mv * mk);
}

pub fn dot_wide(a: Vec3, b: Vec3) -> (r: i128)
    requires
        in_range(a, 0x20000000000),
        in_range(b, 0x20000000000),
    ensures
        r as int == dot_wide_spec(a, b),
{
    proof {
        lemma_mul_abs_bound(a.x as int, b.x as int, 0x20000000000, 0x20000000000);
        lemma_mul_abs_bound(a.y as int, b.y as int, 0x20000000000, 0x20000000000);
        lemma_mul_abs_bound(a.z as int, b.z as int, 0x20000000000, 0x20000000000);
    }
    (a.x as i128) * (b.x as i128) + (a.y as i128) * (b.y as i128) + (a.z as i128) * (b.z as i128)
}

pub fn norm_sq_wide(v: Vec3) -> (r: i128)
    requires
        in_range(v, 0x20000000000),
    ensures
        r as int == norm_sq_spec(v),
        r >= 0,
{
    let r = dot_wide(v, v);
    proof {
        lemma_mul_abs_bound(v.x as int, v.x as int, 0x20000000000, 0x20000000000);
        assert((v.x as int) * (v.x as int) >= 0) by (nonlinear_arith);
        assert((v.y as int) * (v.y as int) >= 0) by (nonlinear_arith);
        assert((v.z as int) * (v.z as int) >= 0) by (nonlinear_arith);
    }
    r
}

/// Fixed-point dot product of a unit-sized vector with a wide one,
/// rescaled back to scalar encoding.
pub fn dot_fx(a: Vec3, b: Vec3) -> (r: i64)
    requires
        in_range(a, 0x400000),
        in_range(b, 0x100000000000000),
    ensures
        r as int == tdiv(dot_wide_spec(a, b), FX_ONE as int),
{
    proof {
        lemma_mul_abs_bound(a.x as int, b.x as int, 0x400000, 0x100000000000000);
        lemma_mul_abs_bound(a.y as int, b.y as int, 0x400000, 0x100000000000000);
        lemma_mul_abs_bound(a.z as int, b.z as int, 0x400000, 0x100000000000000);
    }
    let w: i128 = (a.x as i128) * (b.x as i128) + (a.y as i128) * (b.y as i128)
        + (a.z as i128) * (b.z as i128);
    fx_scale_down(w)
}

pub fn cross(a: Vec3, b: Vec3) -> (r: Vec3)
    requires
        in_range(a, 0x10000000000),
        in_range(b, 0x10000000000),
    ensures
        r == cross_spec(a, b),
{
    proof {
        lemma_mul_abs_bound(a.y as int, b.z as int, 0x10000000000, 0x10000000000);
        lemma_mul_abs_bound(a.z as int, b.y as int, 0x10000000000, 0x10000000000);
        lemma_mul_abs_bound(a.z as int, b.x as int, 0x10000000000, 0x10000000000);
        lemma_mul_abs_bound(a.x as int, b.z as int, 0x10000000000, 0x10000000000);
        lemma_mul_abs_bound(a.x as int, b.y as int, 0x10000000000, 0x10000000000);
        lemma_mul_abs_bound(a.y as int, b.x as int, 0x10000000000, 0x10000000000);
    }
    let cx: i128 = (a.y as i128) * (b.z as i128) - (a.z as i128) * (b.y as i128);
    let cy: i128 = (a.z as i128) * (b.x as i128) - (a.x as i128) * (b.z as i128);
    let cz: i128 = (a.x as i128) * (b.y as i128) - (a.y as i128) * (b.x as i128);
    Vec3 { x: fx_scale_down(cx), y: fx_scale_down(cy), z: fx_scale_down(cz) }
}

/// Scales `v` to unit length, or returns `fallback` when `v` is too short or
/// the rescaled result fails its own length check.  The result is always a
/// unit vector; when it is not `fallback`, it is exactly `v` rescaled by the
/// integer square root of its squared norm.
pub fn normalize_or(v: Vec3, fallback: Vec3) -> (r: Vec3)
    requires
        in_range(v, 0x10000000000),
        nearly_unit(fallback),
    ensures
        nearly_unit(r),
        r == fallback || (exists|n: int|
            {
                &&& 1 <= n
                &&& n * n <= norm_sq_spec(v)
                &&& norm_sq_spec(v) < (n + 1) * (n + 1)
                &&& #[trigger] scale_div_spec(v, n) == r
            }),
        norm_sq_spec(v) >= 17179869184 ==> (exists|n: int|
            {
                &&& 1 <= n
                &&& n * n <= norm_sq_spec(v)
                &&& norm_sq_spec(v) < (n + 1) * (n + 1)
                &&& #[trigger] scale_div_spec(v, n) == r
            }),
{
    proof {
        lemma_mul_abs_bound(v.x as int, v.x as int, 0x10000000000, 0x10000000000);
        lemma_mul_abs_bound(v.y as int, v.y as int, 0x10000000000, 0x10000000000);
        lemma_mul_abs_bound(v.z as int, v.z as int, 0x10000000000, 0x10000000000);
    }
    let nsq: i128 = norm_sq_wide(v);
    if nsq <= 0 {
        return fallback;
    }
    let n_wide: u128 = isqrt_u128(nsq as u128);
    if n_wide < 1 || n_wide > 0x7fffffffffffffff {
        proof {
            if norm_sq_spec(v) >= 17179869184 {
                if n_wide < 1 {
                    assert(((n_wide as int) + 1) * ((n_wide as int) + 1) == 1) by (nonlinear_arith)
                        requires
                            n_wide == 0,
                    ;
                }
                if n_wide > 0x7fffffffffffffff {
                    assert((n_wide as int) * (n_wide as int) > 0x3000000000000000000000)
                        by (nonlinear_arith)
                        requires
                            n_wide > 0x7fffffffffffffff,
                    ;
                }
            }
        }
        return fallback;
    }
    let n: i64 = n_wide as i64;
    proof {
        lemma_mul_abs_bound(v.x as int, FX_ONE as int, 0x10000000000, 1048576);
        lemma_mul_abs_bound(v.y as int, FX_ONE as int, 0x10000000000, 1048576);
        lemma_mul_abs_bound(v.z as int, FX_ONE as int, 0x10000000000, 1048576);
    }
    let rx: i64 = div_trunc((v.x as i128) * (FX_ONE as i128), n);
    let ry: i64 = div_trunc((v.y as i128) * (FX_ONE as i128), n);
    let rz: i64 = div_trunc((v.z as i128) * (FX_ONE as i128), n);
    if rx < -FX_ONE || rx > FX_ONE || ry < -FX_ONE || ry > FX_ONE || rz < -FX_ONE || rz > FX_ONE {
        proof {
            if norm_sq_spec(v) >= 17179869184 {
                assert(n as int >= 131072) by (nonlinear_arith)
                    requires
                        ((n as int) + 1) * ((n as int) + 1) > 17179869184,
                        n >= 0,
                ;
                lemma_normalize_window(v, n as int);
            }
        }
        return fallback;
    }
    proof {
        lemma_mul_abs_bound(rx as int, rx as int, FX_ONE as int, FX_ONE as int);
        lemma_mul_abs_bound(ry as int, ry as int, FX_ONE as int, FX_ONE as int);
        lemma_mul_abs_bound(rz as int, rz as int, FX_ONE as int, FX_ONE as int);
    }
    let s: i64 = rx * rx + ry * ry + rz * rz;
    proof {
        if norm_sq_spec(v) >= 17179869184 {
            assert(n as int >= 131072) by (nonlinear_arith)
                requires
                    ((n as int) + 1) * ((n as int) + 1) > 17179869184,
                    n >= 0,
            ;
            lemma_normalize_window(v, n as int);
        }
    }
    if FX_ONE_SQ - VEC_TOL <= s && s <= FX_ONE_SQ + VEC_TOL {
        let r = Vec3 { x: rx, y: ry, z: rz };
        proof {
            let n_int: int = n as int;
            assert({
                &&& 1 <= n_int
                &&& n_int * n_int <= norm_sq_spec(v)
                &&& norm_sq_spec(v) < (n_int + 1) * (n_int + 1)
                &&& scale_div_spec(v, n_int) == r
            });
        }
        r
    } else {
        fallback
    }
}

/// `r` is `v` rescaled by the integer square root of `v`'s squared norm:
/// the exact outcome of a successful normalization.  The square root is
/// unique, so at most one vector satisfies this of a given `v`.
pub open spec fn rescaled_of(v: Vec3, r: Vec3) -> bool {
    exists|n: int|
        {
            &&& 1 <= n
            &&& n * n <= norm_sq_spec(v)
            &&& norm_sq_spec(v) < (n + 1) * (n + 1)
            &&& #[trigger] scale_div_spec(v, n) == r
        }
}

/// `r` is `v` rescaled to unit length, possibly negated.
pub open spec fn rescaled_or_neg_of(v: Vec3, r: Vec3) -> bool {
    exists|n: int|
        {
            &&& 1 <= n
            &&& n * n <= norm_sq_spec(v)
            &&& norm_sq_spec(v) < (n + 1) * (n + 1)
            &&& (#[trigger] scale_div_spec(v, n) == r || vneg_spec(scale_div_spec(v, n)) == r)
        }
}

/// Per-component clamp into a symmetric box.
pub open spec fn clamp_vec_spec(v: Vec3, m: i64) -> Vec3 {
    Vec3 {
        x: crate::fx::clamp_spec(v.x as int, -(m as int), m as int) as i64,
        y: crate::fx::clamp_spec(v.y as int, -(m as int), m as int) as i64,
        z: crate::fx::clamp_spec(v.z as int, -(m as int), m as int) as i64,
    }
}

pub fn clamp_vec(v: Vec3, m: i64) -> (r: Vec3)
    requires
        m >= 0,
    ensures
        r == clamp_vec_spec(v, m),
        in_range(r, m as int),
{
    Vec3 {
        x: crate::fx::clamp_i64(v.x, -m, m),
        y: crate::fx::clamp_i64(v.y, -m, m),
        z: crate::fx::clamp_i64(v.z, -m, m),
    }
}

/// Negation keeps the squared norm.
pub proof fn lemma_vneg_norm(v: Vec3)
    requires
        in_range(v, 0x4000000000000000),
    ensures
        norm_sq_spec(vneg_spec(v)) == norm_sq_spec(v),
{
    assert((-(v.x as int)) * (-(v.x as int)) == (v.x as int) * (v.x as int)) by (nonlinear_arith);
    assert((-(v.y as int)) * (-(v.y as int)) == (v.y as int) * (v.y as int)) by (nonlinear_arith);
    assert((-(v.z as int)) * (-(v.z as int)) == (v.z as int) * (v.z as int)) by (nonlinear_arith);
}

/// Negating one side negates the dot product.
pub proof fn lemma_vneg_dot(a: Vec3, b: Vec3)
    requires
        in_range(a, 0x4000000000000000),
    ensures
        dot_wide_spec(vneg_spec(a), b) == -dot_wide_spec(a, b),
{
    assert((-(a.x as int)) * (b.x as int) == -((a.x as int) * (b.x as int))) by (nonlinear_arith);
    assert((-(a.y as int)) * (b.y as int) == -((a.y as int) * (b.y as int))) by (nonlinear_arith);
    assert((-(a.z as int)) * (b.z as int) == -((a.z as int) * (b.z as int))) by (nonlinear_arith);
}

/// `v` doubled `k` times, component by component: the direction is kept
/// while the length is scaled by a power of two.
pub open spec fn doubled_spec(v: Vec3, k: nat) -> Vec3
    decreases k,
{
    if k == 0 {
        v
    } else {
        let w = doubled_spec(v, (k - 1) as nat);
        Vec3 { x: (2 * w.x) as i64, y: (2 * w.y) as i64, z: (2 * w.z) as i64 }
    }
}

/// Scales an arbitrary nonzero vector to unit length: short vectors are
/// doubled until their squared norm is large enough for `normalize_or` to
/// rescale them accurately, which leaves their direction unchanged.  Any
/// vector of at least one fraction step in length yields exactly some
/// doubling of itself rescaled by the integer square root of that
/// doubling's squared norm - never the fallback.
pub fn direction_or(v: Vec3, fallback: Vec3) -> (r: Vec3)
    requires
        in_range(v, 0x10000000000),
        nearly_unit(fallback),
    ensures
        nearly_unit(r),
        norm_sq_spec(v) >= 1 ==> (exists|k: nat, n: int|
            {
                &&& 1 <= n
                &&& n * n <= norm_sq_spec(doubled_spec(v, k))
                &&& norm_sq_spec(doubled_spec(v, k)) < (n + 1) * (n + 1)
                &&& norm_sq_spec(doubled_spec(v, k)) >= 68719476736
                &&& #[trigger] scale_div_spec(doubled_spec(v, k), n) == r
            }),
{
    let mut w = v;
    let mut nsq: i128 = norm_sq_wide(w);
    if nsq <= 0 {
        return fallback;
    }
    let ghost mut k: nat = 0;
    while nsq < 68719476736
        invariant
            in_range(w, 0x10000000000),
            nsq as int == norm_sq_spec(w),
            nsq >= 1,
            w == doubled_spec(v, k),
        decreases (if nsq >= 68719476736 { 0int } else { 68719476736 - nsq }),
    {
        proof {
            assert(in_range(w, 0x40000)) by (nonlinear_arith)
                requires
                    norm_sq_spec(w) < 68719476736,
                    norm_sq_spec(w) == (w.x as int) * (w.x as int) + (w.y as int) * (w.y as int)
                        + (w.z as int) * (w.z as int),
                    in_range(w, 0x10000000000),
            ;
            assert((2 * (w.x as int)) * (2 * (w.x as int)) == 4 * ((w.x as int) * (w.x as int)))
                by (nonlinear_arith);
            assert((2 * (w.y as int)) * (2 * (w.y as int)) == 4 * ((w.y as int) * (w.y as int)))
                by (nonlinear_arith);
            assert((2 * (w.z as int)) * (2 * (w.z as int)) == 4 * ((w.z as int) * (w.z as int)))
                by (nonlinear_arith);
        }
        w = Vec3 { x: w.x * 2, y: w.y * 2, z: w.z * 2 };
        nsq = nsq * 4;
        proof {
            k = k + 1;
        }
    }
    let r = normalize_or(w, fallback);
    proof {
        assert(norm_sq_spec(w) >= 68719476736 > 17179869184);
        let n = choose|n: int|
            {
                &&& 1 <= n
                &&& n * n <= norm_sq_spec(w)
                &&& norm_sq_spec(w) < (n + 1) * (n + 1)
                &&& #[trigger] scale_div_spec(w, n) == r
            };
        assert({
            &&& 1 <= n
            &&& n * n <= norm_sq_spec(doubled_spec(v, k))
            &&& norm_sq_spec(doubled_spec(v, k)) < (n + 1) * (n + 1)
            &&& norm_sq_spec(doubled_spec(v, k)) >= 68719476736
            &&& scale_div_spec(doubled_spec(v, k), n) == r
        });
    }
    r
}

/// Rescaling a vector by the integer square root `n` of its squared norm
/// lands within `VEC_TOL` of unit length, provided the norm is at least an
/// eighth of a unit.  The runtime length check in `normalize_or` can
/// therefore only fail on shorter vectors.
pub proof fn lemma_normalize_window(v: Vec3, n: int)
    requires
        n >= 131072,
        n * n <= norm_sq_spec(v),
        norm_sq_spec(v) < (n + 1) * (n + 1),
    ensures
        in_range(scale_div_spec(v, n), FX_ONE as int),
        (FX_ONE_SQ - VEC_TOL) as int <= norm_sq_spec(scale_div_spec(v, n)),
        norm_sq_spec(scale_div_spec(v, n)) <= (FX_ONE_SQ + VEC_TOL) as int,
{
    let s = FX_ONE as int;
    let c = FX_ONE_SQ as int;
    let nsq = norm_sq_spec(v);
    let vx = v.x as int;
    let vy = v.y as int;
    let vz = v.z as int;
    assert(vx * vx >= 0) by (nonlinear_arith);
    assert(vy * vy >= 0) by (nonlinear_arith);
    assert(vz * vz >= 0) by (nonlinear_arith);
    lemma_scale_div_window(vx, n);
    lemma_scale_div_window(vy, n);
    lemma_scale_div_window(vz, n);
    let mx = tdiv(vx * s, n);
    let my = tdiv(vy * s, n);
    let mz = tdiv(vz * s, n);
    let nn = n * n;
    let msum = mx * mx + my * my + mz * mz;
    assert(msum * nn == mx * mx * nn + my * my * nn + mz * mz * nn) by (nonlinear_arith)
        requires
            msum == mx * mx + my * my + mz * mz,
    ;
    assert(msum * nn <= nsq * c);
    assert(nsq * c < msum * nn + 6291459 * nn);
    assert(msum > c - 6291460) by (nonlinear_arith)
        requires
            nn == n * n,
            n >= 1,
            nn * c < msum * nn + 6291459 * nn,
            c == 1099511627776,
    ;
    assert((n + 1) * (n + 1) == nn + 2 * n + 1) by (nonlinear_arith)
        requires
            nn == n * n,
    ;
    assert(nsq <= nn + 2 * n);
    assert(msum <= c + 16777216) by (nonlinear_arith)
        requires
            nn == n * n,
            msum * nn <= nsq * c,
            nsq <= nn + 2 * n,
            n >= 131072,
            c == 1099511627776,
    ;
    let r = scale_div_spec(v, n);
    assert(r.x as int == mx && r.y as int == my && r.z as int == mz);
    assert(norm_sq_spec(r) == msum);
}

} // verus!
