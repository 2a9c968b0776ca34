//! Fixed-point quaternions for camera orientation.
//!
//! The Hamilton product and the rotation of a vector both have exact
//! truncating-integer specifications.  Renormalization checks its own
//! result and falls back to a caller-supplied unit quaternion when the
//! check fails, so a near-unit orientation stays near-unit under every
//! sequence of incremental rotations.

use vstd::prelude::*;

verus! {

use crate::fx::{
    FX_ONE, FX_ONE_SQ, tdiv, fx_mul_spec, fx_scale_down, div_trunc, fx_mul, isqrt_u128,
    lemma_mul_abs_bound, lemma_tdiv_bounds, lemma_scale_div_window,
};
use crate::vec3::{Vec3, vadd_spec, cross_spec, scale_spec};

/// Tolerance on the squared norm of a quaternion that counts as unit.
pub const QUAT_TOL: i64 = 16777216;

#[derive(Clone, Copy, PartialEq, Eq, Structural, Debug)]
pub struct Quat {
    pub w: i64,
    pub x: i64,
    pub y: i64,
    pub z: i64,
}

pub open spec fn in_range_q(q: Quat, m: int) -> bool {
    &&& -m <= q.w <= m
    &&& -m <= q.x <= m
    &&& -m <= q.y <= m
    &&& -m <= q.z <= m
}

pub open spec fn norm_sq_q_spec(q: Quat) -> int {
    (q.w as int) * (q.w as int) + (q.x as int) * (q.x as int) + (q.y as int) * (q.y as int)
        + (q.z as int) * (q.z as int)
}

/// A quaternion of unit length, within `QUAT_TOL` on the squared norm.
pub open spec fn nearly_unit_q(q: Quat) -> bool {
    &&& (FX_ONE_SQ - QUAT_TOL) as int <= norm_sq_q_spec(q) <= (FX_ONE_SQ + QUAT_TOL) as int
    &&& in_range_q(q, FX_ONE as int)
}

/// The vector part of a quaternion.
pub open spec fn quat_vec(q: Quat) -> Vec3 {
    Vec3 { x: q.x, y: q.y, z: q.z }
}

/// The Hamilton product, with each component rescaled by `FX_ONE`.
pub open spec fn quat_mul_spec(a: Quat, b: Quat) -> Quat {
    Quat {
        w: tdiv(
            (a.w as int) * (b.w as int) - (a.x as int) * (b.x as int) - (a.y as int) * (b.y as int)
                - (a.z as int) * (b.z as int),
            FX_ONE as int,
        ) as i64,
        x: tdiv(
            (a.w as int) * (b.x as int) + (a.x as int) * (b.w as int) + (a.y as int) * (b.z as int)
                - (a.z as int) * (b.y as int),
            FX_ONE as int,
        ) as i64,
        y: tdiv(
            (a.w as int) * (b.y as int) - (a.x as int) * (b.z as int) + (a.y as int) * (b.w as int)
                + (a.z as int) * (b.x as int),
            FX_ONE as int,
        ) as i64,
        z: tdiv(
            (a.w as int) * (b.z as int) + (a.x as int) * (b.y as int) - (a.y as int) * (b.x as int)
                + (a.z as int) * (b.w as int),
            FX_ONE as int,
        ) as i64,
    }
}

/// Rotation of `v` by `q` through the doubled-cross-product form:
/// `r = v + w*t + u x t` with `t = 2 (u x v)` and `u` the vector part.
pub open spec fn rotate_spec(q: Quat, v: Vec3) -> Vec3 {
    let t0 = cross_spec(quat_vec(q), v);
    let t = vadd_spec(t0, t0);
    vadd_spec(vadd_spec(v, scale_spec(t, q.w as int)), cross_spec(quat_vec(q), t))
}

pub fn quat_mul(a: Quat, b: Quat) -> (r: Quat)
    requires
        in_range_q(a, 0x40000000),
        in_range_q(b, 0x40000000),
    ensures
        r == quat_mul_spec(a, b),
        in_range_q(r, 0x40000000000),
{
    proof {
        lemma_mul_abs_bound(a.w as int, b.w as int, 0x40000000, 0x40000000);
        lemma_mul_abs_bound(a.w as int, b.x as int, 0x40000000, 0x40000000);
        lemma_mul_abs_bound(a.w as int, b.y as int, 0x40000000, 0x40000000);
        lemma_mul_abs_bound(a.w as int, b.z as int, 0x40000000, 0x40000000);
        lemma_mul_abs_bound(a.x as int, b.w as int, 0x40000000, 0x40000000);
        lemma_mul_abs_bound(a.x as int, b.x as int, 0x40000000, 0x40000000);
        lemma_mul_abs_bound(a.x as int, b.y as int, 0x40000000, 0x40000000);
        lemma_mul_abs_bound(a.x as int, b.z as int, 0x40000000, 0x40000000);
        lemma_mul_abs_bound(a.y as int, b.w as int, 0x40000000, 0x40000000);
        lemma_mul_abs_bound(a.y as int, b.x as int, 0x40000000, 0x40000000);
        lemma_mul_abs_bound(a.y as int, b.y as int, 0x40000000, 0x40000000);
        lemma_mul_abs_bound(a.y as int, b.z as int, 0x40000000, 0x40000000);
        lemma_mul_abs_bound(a.z as int, b.w as int, 0x40000000, 0x40000000);
        lemma_mul_abs_bound(a.z as int, b.x as int, 0x40000000, 0x40000000);
        lemma_mul_abs_bound(a.z as int, b.y as int, 0x40000000, 0x40000000);
        lemma_mul_abs_bound(a.z as int, b.z as int, 0x40000000, 0x40000000);
    }
    let pw: i128 = (a.w as i128) * (b.w as i128) - (a.x as i128) * (b.x as i128)
        - (a.y as i128) * (b.y as i128) - (a.z as i128) * (b.z as i128);
    let px: i128 = (a.w as i128) * (b.x as i128) + (a.x as i128) * (b.w as i128)
        + (a.y as i128) * (b.z as i128) - (a.z as i128) * (b.y as i128);
    let py: i128 = (a.w as i128) * (b.y as i128) - (a.x as i128) * (b.z as i128)
        + (a.y as i128) * (b.w as i128) + (a.z as i128) * (b.x as i128);
    let pz: i128 = (a.w as i128) * (b.z as i128) + (a.x as i128) * (b.y as i128)
        - (a.y as i128) * (b.x as i128) + (a.z as i128) * (b.w as i128);
    proof {
        lemma_tdiv_bounds(pw as int, FX_ONE as int, 0x4000000000000000);
        lemma_tdiv_bounds(px as int, FX_ONE as int, 0x4000000000000000);
        lemma_tdiv_bounds(py as int, FX_ONE as int, 0x4000000000000000);
        lemma_tdiv_bounds(pz as int, FX_ONE as int, 0x4000000000000000);
        assert(0x4000000000000000int / (FX_ONE as int) == 0x40000000000int);
    }
    Quat { w: fx_scale_down(pw), x: fx_scale_down(px), y: fx_scale_down(py), z: fx_scale_down(pz) }
}

/// Rotates `v` by the near-unit quaternion `q`.
pub fn rotate_vec(q: Quat, v: Vec3) -> (r: Vec3)
    requires
        in_range_q(q, 0x200000),
        crate::vec3::in_range(v, 0x10000000000),
    ensures
        r == rotate_spec(q, v),
        crate::vec3::in_range(r, 0x800000000000),
{
    proof {
        lemma_mul_abs_bound(q.y as int, v.z as int, 0x200000, 0x10000000000);
        lemma_mul_abs_bound(q.z as int, v.y as int, 0x200000, 0x10000000000);
        lemma_mul_abs_bound(q.z as int, v.x as int, 0x200000, 0x10000000000);
        lemma_mul_abs_bound(q.x as int, v.z as int, 0x200000, 0x10000000000);
        lemma_mul_abs_bound(q.x as int, v.y as int, 0x200000, 0x10000000000);
        lemma_mul_abs_bound(q.y as int, v.x as int, 0x200000, 0x10000000000);
    }
    let t0x: i64 = fx_scale_down((q.y as i128) * (v.z as i128) - (q.z as i128) * (v.y as i128));
    let t0y: i64 = fx_scale_down((q.z as i128) * (v.x as i128) - (q.x as i128) * (v.z as i128));
    let t0z: i64 = fx_scale_down((q.x as i128) * (v.y as i128) - (q.y as i128) * (v.x as i128));
    proof {
        lemma_tdiv_bounds(
            (q.y as int) * (v.z as int) - (q.z as int) * (v.y as int),
            FX_ONE as int,
            0x4000000000000000,
        );
        lemma_tdiv_bounds(
            (q.z as int) * (v.x as int) - (q.x as int) * (v.z as int),
            FX_ONE as int,
            0x4000000000000000,
        );
        lemma_tdiv_bounds(
            (q.x as int) * (v.y as int) - (q.y as int) * (v.x as int),
            FX_ONE as int,
            0x4000000000000000,
        );
        assert(0x4000000000000000int / (FX_ONE as int) == 0x40000000000int);
    }
    let tx: i64 = t0x + t0x;
    let ty: i64 = t0y + t0y;
    let tz: i64 = t0z + t0z;
    proof {
        lemma_mul_abs_bound(tx as int, q.w as int, 0x80000000000, 0x200000);
        lemma_mul_abs_bound(ty as int, q.w as int, 0x80000000000, 0x200000);
        lemma_mul_abs_bound(tz as int, q.w as int, 0x80000000000, 0x200000);
    }
    let axx: i64 = fx_mul(tx, q.w);
    let axy: i64 = fx_mul(ty, q.w);
    let axz: i64 = fx_mul(tz, q.w);
    proof {
        lemma_tdiv_bounds((tx as int) * (q.w as int), FX_ONE as int, 0x10000000000000000);
        lemma_tdiv_bounds((ty as int) * (q.w as int), FX_ONE as int, 0x10000000000000000);
        lemma_tdiv_bounds((tz as int) * (q.w as int), FX_ONE as int, 0x10000000000000000);
        assert(0x10000000000000000int / (FX_ONE as int) == 0x100000000000int);
        lemma_mul_abs_bound(q.y as int, tz as int, 0x200000, 0x80000000000);
        lemma_mul_abs_bound(q.z as int, ty as int, 0x200000, 0x80000000000);
        lemma_mul_abs_bound(q.z as int, tx as int, 0x200000, 0x80000000000);
        lemma_mul_abs_bound(q.x as int, tz as int, 0x200000, 0x80000000000);
        lemma_mul_abs_bound(q.x as int, ty as int, 0x200000, 0x80000000000);
        lemma_mul_abs_bound(q.y as int, tx as int, 0x200000, 0x80000000000);
    }
    let bxx: i64 = fx_scale_down((q.y as i128) * (tz as i128) - (q.z as i128) * (ty as i128));
    let bxy: i64 = fx_scale_down((q.z as i128) * (tx as i128) - (q.x as i128) * (tz as i128));
    let bxz: i64 = fx_scale_down((q.x as i128) * (ty as i128) - (q.y as i128) * (tx as i128));
    proof {
        lemma_tdiv_bounds(
            (q.y as int) * (tz as int) - (q.z as int) * (ty as int),
            FX_ONE as int,
            0x20000000000000000,
        );
        lemma_tdiv_bounds(
            (q.z as int) * (tx as int) - (q.x as int) * (tz as int),
            FX_ONE as int,
            0x20000000000000000,
        );
        lemma_tdiv_bounds(
            (q.x as int) * (ty as int) - (q.y as int) * (tx as int),
            FX_ONE as int,
            0x20000000000000000,
        );
        assert(0x20000000000000000int / (FX_ONE as int) == 0x200000000000int);
    }
    Vec3 { x: v.x + axx + bxx, y: v.y + axy + bxy, z: v.z + axz + bxz }
}

/// Each component scaled up by `FX_ONE` and divided by `n`, truncating.
pub open spec fn quat_scale_div_spec(q: Quat, n: int) -> Quat {
    Quat {
        w: tdiv((q.w as int) * (FX_ONE as int), n) as i64,
        x: tdiv((q.x as int) * (FX_ONE as int), n) as i64,
        y: tdiv((q.y as int) * (FX_ONE as int), n) as i64,
        z: tdiv((q.z as int) * (FX_ONE as int), n) as i64,
    }
}

/// Rescales `q` to unit length, or returns `fallback` when the rescaled
/// value fails its own length check.  The result is always near-unit; when
/// it is not `fallback`, it is exactly `q` rescaled by the integer square
/// root of its squared norm.
pub fn renormalize_or(q: Quat, fallback: Quat) -> (r: Quat)
    requires
        in_range_q(q, 0x40000000),
        nearly_unit_q(fallback),
    ensures
        nearly_unit_q(r),
        r == fallback || (exists|n: int|
            {
                &&& 1 <= n
                &&& n * n <= norm_sq_q_spec(q)
                &&& norm_sq_q_spec(q) < (n + 1) * (n + 1)
                &&& #[trigger] quat_scale_div_spec(q, n) == r
            }),
        norm_sq_q_spec(q) >= 274877906944 ==> (exists|n: int|
            {
                &&& 1 <= n
                &&& n * n <= norm_sq_q_spec(q)
                &&& norm_sq_q_spec(q) < (n + 1) * (n + 1)
                &&& #[trigger] quat_scale_div_spec(q, n) == r
            }),
{
    proof {
        lemma_mul_abs_bound(q.w as int, q.w as int, 0x40000000, 0x40000000);
        lemma_mul_abs_bound(q.x as int, q.x as int, 0x40000000, 0x40000000);
        lemma_mul_abs_bound(q.y as int, q.y as int, 0x40000000, 0x40000000);
        lemma_mul_abs_bound(q.z as int, q.z as int, 0x40000000, 0x40000000);
        assert((q.w as int) * (q.w as int) >= 0) by (nonlinear_arith);
        assert((q.x as int) * (q.x as int) >= 0) by (nonlinear_arith);
        assert((q.y as int) * (q.y as int) >= 0) by (nonlinear_arith);
        assert((q.z as int) * (q.z as int) >= 0) by (nonlinear_arith);
    }
    let nsq: i128 = (q.w as i128) * (q.w as i128) + (q.x as i128) * (q.x as i128)
        + (q.y as i128) * (q.y as i128) + (q.z as i128) * (q.z as i128);
    if nsq <= 0 {
        return fallback;
    }
    let n_wide: u128 = isqrt_u128(nsq as u128);
    if n_wide < 1 || n_wide > 0x7fffffffffffffff {
        proof {
            if norm_sq_q_spec(q) >= 274877906944 {
                if n_wide < 1 {
                    assert(((n_wide as int) + 1) * ((n_wide as int) + 1) == 1) by (nonlinear_arith)
                        requires
                            n_wide == 0,
                    ;
                }
                if n_wide > 0x7fffffffffffffff {
                    assert((n_wide as int) * (n_wide as int) > 0x4000000000000000000000000)
                        by (nonlinear_arith)
                        requires
                            n_wide > 0x7fffffffffffffff,
                    ;
                }
            }
        }
        return fallback;
    }
    let n: i64 = n_wide as i64;
    proof {
        lemma_mul_abs_bound(q.w as int, FX_ONE as int, 0x40000000, 1048576);
        lemma_mul_abs_bound(q.x as int, FX_ONE as int, 0x40000000, 1048576);
        lemma_mul_abs_bound(q.y as int, FX_ONE as int, 0x40000000, 1048576);
        lemma_mul_abs_bound(q.z as int, FX_ONE as int, 0x40000000, 1048576);
    }
    let rw: i64 = div_trunc((q.w as i128) * (FX_ONE as i128), n);
    let rx: i64 = div_trunc((q.x as i128) * (FX_ONE as i128), n);
    let ry: i64 = div_trunc((q.y as i128) * (FX_ONE as i128), n);
    let rz: i64 = div_trunc((q.z as i128) * (FX_ONE as i128), n);
    if rw < -FX_ONE || rw > FX_ONE || rx < -FX_ONE || rx > FX_ONE || ry < -FX_ONE || ry > FX_ONE
        || rz < -FX_ONE || rz > FX_ONE {
        proof {
            if norm_sq_q_spec(q) >= 274877906944 {
                assert(n as int >= 524288) by (nonlinear_arith)
                    requires
                        ((n as int) + 1) * ((n as int) + 1) > 274877906944,
                        n >= 0,
                ;
                lemma_renormalize_window(q, n as int);
            }
        }
        return fallback;
    }
    proof {
        lemma_mul_abs_bound(rw as int, rw as int, FX_ONE as int, FX_ONE as int);
        lemma_mul_abs_bound(rx as int, rx as int, FX_ONE as int, FX_ONE as int);
        lemma_mul_abs_bound(ry as int, ry as int, FX_ONE as int, FX_ONE as int);
        lemma_mul_abs_bound(rz as int, rz as int, FX_ONE as int, FX_ONE as int);
    }
    let s: i64 = rw * rw + rx * rx + ry * ry + rz * rz;
    proof {
        if norm_sq_q_spec(q) >= 274877906944 {
            assert(n as int >= 524288) by (nonlinear_arith)
                requires
                    ((n as int) + 1) * ((n as int) + 1) > 274877906944,
                    n >= 0,
            ;
            lemma_renormalize_window(q, n as int);
        }
    }
    if FX_ONE_SQ - QUAT_TOL <= s && s <= FX_ONE_SQ + QUAT_TOL {
        let r = Quat { w: rw, x: rx, y: ry, z: rz };
        proof {
            let n_int: int = n as int;
            assert({
                &&& 1 <= n_int
                &&& n_int * n_int <= norm_sq_q_spec(q)
                &&& norm_sq_q_spec(q) < (n_int + 1) * (n_int + 1)
                &&& quat_scale_div_spec(q, n_int) == r
            });
        }
        r
    } else {
        fallback
    }
}

/// A bound on the components of a Hamilton product, derived from bounds on
/// the factors.
pub proof fn lemma_quat_mul_range(a: Quat, b: Quat, ma: int, mb: int)
    requires
        0 <= ma,
        0 <= mb,
        in_range_q(a, ma),
        in_range_q(b, mb),
    ensures
        in_range_q(quat_mul_spec(a, b), 4 * ma * mb / (FX_ONE as int) + 1),
{
    lemma_mul_abs_bound(a.w as int, b.w as int, ma, mb);
    lemma_mul_abs_bound(a.w as int, b.x as int, ma, mb);
    lemma_mul_abs_bound(a.w as int, b.y as int, ma, mb);
    lemma_mul_abs_bound(a.w as int, b.z as int, ma, mb);
    lemma_mul_abs_bound(a.x as int, b.w as int, ma, mb);
    lemma_mul_abs_bound(a.x as int, b.x as int, ma, mb);
    lemma_mul_abs_bound(a.x as int, b.y as int, ma, mb);
    lemma_mul_abs_bound(a.x as int, b.z as int, ma, mb);
    lemma_mul_abs_bound(a.y as int, b.w as int, ma, mb);
    lemma_mul_abs_bound(a.y as int, b.x as int, ma, mb);
    lemma_mul_abs_bound(a.y as int, b.y as int, ma, mb);
    lemma_mul_abs_bound(a.y as int, b.z as int, ma, mb);
    lemma_mul_abs_bound(a.z as int, b.w as int, ma, mb);
    lemma_mul_abs_bound(a.z as int, b.x as int, ma, mb);
    lemma_mul_abs_bound(a.z as int, b.y as int, ma, mb);
    lemma_mul_abs_bound(a.z as int, b.z as int, ma, mb);
    assert(4 * (ma * mb) == 4 * ma * mb) by (nonlinear_arith);
    lemma_tdiv_bounds(
        (a.w as int) * (b.w as int) - (a.x as int) * (b.x as int) - (a.y as int) * (b.y as int)
            - (a.z as int) * (b.z as int),
        FX_ONE as int,
        4 * ma * mb,
    );
    lemma_tdiv_bounds(
        (a.w as int) * (b.x as int) + (a.x as int) * (b.w as int) + (a.y as int) * (b.z as int)
            - (a.z as int) * (b.y as int),
        FX_ONE as int,
        4 * ma * mb,
    );
    lemma_tdiv_bounds(
        (a.w as int) * (b.y as int) - (a.x as int) * (b.z as int) + (a.y as int) * (b.w as int)
            + (a.z as int) * (b.x as int),
        FX_ONE as int,
        4 * ma * mb,
    );
    lemma_tdiv_bounds(
        (a.w as int) * (b.z as int) + (a.x as int) * (b.y as int) - (a.y as int) * (b.x as int)
            + (a.z as int) * (b.w as int),
        FX_ONE as int,
        4 * ma * mb,
    );
}

/// Rescaling a quaternion by the integer square root `n` of its squared
/// norm lands within `QUAT_TOL` of unit length, provided the norm is at
/// least half a unit.  This is what makes renormalization total for every
/// healthy orientation: the runtime length check can only fail on inputs
/// shorter than half a unit.
pub proof fn lemma_renormalize_window(q: Quat, n: int)
    requires
        n >= 524288,
        n * n <= norm_sq_q_spec(q),
        norm_sq_q_spec(q) < (n + 1) * (n + 1),
    ensures
        in_range_q(quat_scale_div_spec(q, n), FX_ONE as int),
        (FX_ONE_SQ - QUAT_TOL) as int <= norm_sq_q_spec(quat_scale_div_spec(q, n)),
        norm_sq_q_spec(quat_scale_div_spec(q, n)) <= (FX_ONE_SQ + QUAT_TOL) as int,
{
    let s = FX_ONE as int;
    let c = FX_ONE_SQ as int;
    let nsq = norm_sq_q_spec(q);
    let qw = q.w as int;
    let qx = q.x as int;
    let qy = q.y as int;
    let qz = q.z as int;
    assert(qw * qw >= 0) by (nonlinear_arith);
    assert(qx * qx >= 0) by (nonlinear_arith);
    assert(qy * qy >= 0) by (nonlinear_arith);
    assert(qz * qz >= 0) by (nonlinear_arith);
    lemma_scale_div_window(qw, n);
    lemma_scale_div_window(qx, n);
    lemma_scale_div_window(qy, n);
    lemma_scale_div_window(qz, n);
    let mw = tdiv(qw * s, n);
    let mx = tdiv(qx * s, n);
    let my = tdiv(qy * s, n);
    let mz = tdiv(qz * s, n);
    let nn = n * n;
    let msum = mw * mw + mx * mx + my * my + mz * mz;
    assert(msum * nn == mw * mw * nn + mx * mx * nn + my * my * nn + mz * mz * nn)
        by (nonlinear_arith)
        requires
            msum == mw * mw + mx * mx + my * my + mz * mz,
    ;
    assert(msum * nn <= nsq * c);
    assert(nsq * c < msum * nn + 8388612 * nn);
    assert(msum > c - 8388613) by (nonlinear_arith)
        requires
            nn == n * n,
            n >= 1,
            nn * c < msum * nn + 8388612 * nn,
            c == 1099511627776,
    ;
    assert((n + 1) * (n + 1) == nn + 2 * n + 1) by (nonlinear_arith)
        requires
            nn == n * n,
    ;
    assert(nsq <= nn + 2 * n);
    assert(msum <= c + 4194304) by (nonlinear_arith)
        requires
            nn == n * n,
            msum * nn <= nsq * c,
            nsq <= nn + 2 * n,
            n >= 524288,
            c == 1099511627776,
    ;
    let r = quat_scale_div_spec(q, n);
    assert(r.w as int == mw && r.x as int == mx && r.y as int == my && r.z as int == mz);
    assert(norm_sq_q_spec(r) == msum);
}

} // verus!
