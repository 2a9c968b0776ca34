//! Orbit camera over fixed-point state.
//!
//! The camera holds a target point, a distance, a unit orientation
//! quaternion and a cached right vector.  Incremental yaw/pitch rotations
//! compose onto the orientation and renormalize it; panning translates
//! position and target rigidly; zooming rescales and clamps the distance;
//! a stored snapshot restores the view taken at construction.
//!
//! Verified laws, stated on the contracts below:
//! - the orientation is a near-unit quaternion after every operation;
//! - the distance lies in `[MIN_ZOOM_FX, MAX_ZOOM_FX]` after every zoom;
//! - the cached right vector never reverses from one frame to the next
//!   (its dot product with the previous value stays nonnegative);
//! - resetting restores target, distance, orientation and the derived
//!   position exactly to their values after construction.

use vstd::prelude::*;

verus! {

use crate::fx::{
    FX_ONE, FX_ONE_SQ, tdiv, fx_mul_spec, clamp_spec, fx_mul, clamp_i64, isqrt_u128,
    lemma_mul_abs_bound, lemma_tdiv_bounds,
};
use crate::vec3::{
    Vec3, in_range, norm_sq_spec, nearly_unit, vadd_spec, vsub_spec, vneg_spec, dot_wide_spec, cross_spec,
    clamp_vec_spec, vadd, vsub, vneg, cross, dot_fx, norm_sq_wide, normalize_or, clamp_vec,
    unit_x, unit_y, unit_z, scale, lemma_vneg_norm, lemma_vneg_dot, lemma_fx_one_sq,
};
use crate::quat::{
    Quat, in_range_q, nearly_unit_q, norm_sq_q_spec, quat_mul_spec, quat_scale_div_spec,
    rotate_spec, quat_mul, rotate_vec, renormalize_or, lemma_quat_mul_range,
};
use crate::trig::{half_angle_cos_sin, half_cos_spec, half_sin_spec};

/// Shortest distance the camera may stand from its target: half a unit.
pub const MIN_ZOOM_FX: i64 = 524288;

/// Greatest distance the camera may stand from its target: a hundred units.
pub const MAX_ZOOM_FX: i64 = 104857600;

/// Zoom speed: each scroll step rescales the distance by five percent.
pub const ZOOM_SPEED_FX: i64 = 52429;

/// Pan speed per unit of camera distance.
pub const PAN_RATE_FX: i64 = 10486;

/// Largest incremental rotation accepted per call, about 0.1 radian.
pub const MAX_ROTATION_FX: i64 = 104858;

/// Cosine threshold past which the view axis counts as at a pole: 0.98.
pub const NEAR_POLE_FX: i64 = 1027604;

/// Stricter threshold used when rebuilding the right vector: 0.99.
pub const POLE_LOCK_FX: i64 = 1038090;

/// Half-width of the world box that targets are kept inside.
pub const COORD_MAX_FX: i64 = 0x400000000;

/// Half-width of the box that derived view offsets are clamped into.
pub const OFFSET_MAX_FX: i64 = 0x10000000000;

/// The canonical camera offset in local space: the eye sits at `distance`
/// along the negative second axis before the orientation is applied.
pub open spec fn view_offset_spec(d: i64) -> Vec3 {
    Vec3 { x: 0, y: (-(d as int)) as i64, z: 0 }
}

/// Where the eye stands: the target plus the rotated canonical offset,
/// clamped into a wide box as an overflow guard.
pub open spec fn derived_position_spec(target: Vec3, q: Quat, d: i64) -> Vec3 {
    vadd_spec(target, clamp_vec_spec(rotate_spec(q, view_offset_spec(d)), OFFSET_MAX_FX))
}

/// The view axis the pole logic tests: minus the rotated second axis,
/// clamped like every derived vector.
pub open spec fn forward_axis_spec(q: Quat) -> Vec3 {
    clamp_vec_spec(vneg_spec(rotate_spec(q, Vec3 { x: 0, y: FX_ONE, z: 0 })), OFFSET_MAX_FX)
}


/// Magnitude of the pole-alignment test value: the third component of the
/// clamped view axis.
pub open spec fn pole_align_spec(q: Quat) -> int {
    let fwd = forward_axis_spec(q);
    if fwd.z >= 0 {
        fwd.z as int
    } else {
        -(fwd.z as int)
    }
}

/// The cached right vector after one position update: near a pole the
/// previous vector is kept untouched; elsewhere it is the clamped cross
/// product of the view axis and the world up axis rescaled to unit
/// length, possibly negated to agree in sign with the previous vector,
/// with the previous vector as fallback when the rescale fails its
/// length check - and the rescale cannot fail when that cross product is
/// at least an eighth of a unit long.
pub open spec fn right_after_update_ok(q: Quat, right0: Vec3, r: Vec3) -> bool {
    let fwd = forward_axis_spec(q);
    let ch = clamp_vec_spec(cross_spec(fwd, Vec3 { x: 0, y: 0, z: FX_ONE }), OFFSET_MAX_FX);
    &&& (pole_align_spec(q) > NEAR_POLE_FX as int ==> r == right0)
    &&& (pole_align_spec(q) <= NEAR_POLE_FX as int ==> r == right0 || crate::vec3::rescaled_or_neg_of(
        ch,
        r,
    ))
    &&& (pole_align_spec(q) <= NEAR_POLE_FX as int && crate::vec3::norm_sq_spec(ch) >= 17179869184
        ==> crate::vec3::rescaled_or_neg_of(ch, r))
}

/// The up vector after one position update: the clamped cross product of
/// the (fresh) right vector and the view axis, rescaled to unit length,
/// with the previous up vector as fallback when the rescale fails its
/// length check - which cannot happen when that cross product is at
/// least an eighth of a unit long.
pub open spec fn up_after_update_ok(q: Quat, right: Vec3, up0: Vec3, r: Vec3) -> bool {
    let fwd = forward_axis_spec(q);
    let cu = clamp_vec_spec(cross_spec(right, fwd), OFFSET_MAX_FX);
    &&& (r == up0 || crate::vec3::rescaled_of(cu, r))
    &&& (crate::vec3::norm_sq_spec(cu) >= 17179869184 ==> crate::vec3::rescaled_of(cu, r))
}

/// The construction rule for the cached right vector (spec of
/// `initial_right`): the first coordinate axis when the view axis is
/// locked onto a pole, else the clamped cross product of the view axis
/// and the world up axis rescaled to unit length, with the first
/// coordinate axis as fallback when the rescale fails its length check.
pub open spec fn initial_right_ok(q: Quat, r: Vec3) -> bool {
    let fwd = forward_axis_spec(q);
    let ch = clamp_vec_spec(cross_spec(fwd, Vec3 { x: 0, y: 0, z: FX_ONE }), OFFSET_MAX_FX);
    &&& (pole_align_spec(q) > POLE_LOCK_FX as int ==> r == (Vec3 { x: FX_ONE, y: 0, z: 0 }))
    &&& (pole_align_spec(q) <= POLE_LOCK_FX as int ==> r == (Vec3 { x: FX_ONE, y: 0, z: 0 })
        || crate::vec3::rescaled_of(ch, r))
    &&& (pole_align_spec(q) <= POLE_LOCK_FX as int && crate::vec3::norm_sq_spec(ch) >= 17179869184
        ==> crate::vec3::rescaled_of(ch, r))
}

#[derive(Clone, Copy, PartialEq, Eq, Structural, Debug)]
pub struct Vec4 {
    pub x: i64,
    pub y: i64,
    pub z: i64,
    pub w: i64,
}

/// A row-major 4x4 view matrix in fixed-point scale.
#[derive(Clone, Copy, PartialEq, Eq, Structural, Debug)]
pub struct Mat4 {
    pub r0: Vec4,
    pub r1: Vec4,
    pub r2: Vec4,
    pub r3: Vec4,
}

/// The right-handed look-at matrix assembled from an orthonormal-ish basis:
/// rows carry the side, up and negated forward vectors, with the eye
/// projected onto each as the translation column.
pub open spec fn look_at_rows_spec(s: Vec3, u: Vec3, f: Vec3, eye: Vec3) -> Mat4 {
    Mat4 {
        r0: Vec4 {
            x: s.x,
            y: s.y,
            z: s.z,
            w: (-tdiv(dot_wide_spec(s, eye), FX_ONE as int)) as i64,
        },
        r1: Vec4 {
            x: u.x,
            y: u.y,
            z: u.z,
            w: (-tdiv(dot_wide_spec(u, eye), FX_ONE as int)) as i64,
        },
        r2: Vec4 {
            x: (-(f.x as int)) as i64,
            y: (-(f.y as int)) as i64,
            z: (-(f.z as int)) as i64,
            w: tdiv(dot_wide_spec(f, eye), FX_ONE as int) as i64,
        },
        r3: Vec4 { x: 0, y: 0, z: 0, w: FX_ONE },
    }
}


/// The shortest-arc quaternion, before renormalization, that carries the
/// canonical local view axis onto the unit direction `dir`: its scalar
/// part is one plus their dot product and its vector part their cross
/// product.
pub open spec fn arc_quat_spec(dir: Vec3) -> Quat {
    let a = Vec3 { x: 0, y: (-FX_ONE) as i64, z: 0 };
    let cr = cross_spec(a, dir);
    Quat {
        w: (FX_ONE as int + tdiv(dot_wide_spec(a, dir), FX_ONE as int)) as i64,
        x: cr.x,
        y: cr.y,
        z: cr.z,
    }
}

/// The quaternion that one orbit step composes before renormalizing: the
/// clamped yaw rotation about the world up axis times the clamped pitch
/// rotation about the cached right vector times the old orientation.
pub open spec fn orbit_composed_spec(c: Camera, delta_yaw: int, delta_pitch: int) -> Quat {
    let yaw = clamp_spec(delta_yaw, -(MAX_ROTATION_FX as int), MAX_ROTATION_FX as int);
    let pitch = clamp_spec(delta_pitch, -(MAX_ROTATION_FX as int), MAX_ROTATION_FX as int);
    let yq = Quat { w: half_cos_spec(yaw) as i64, x: 0, y: 0, z: half_sin_spec(yaw) as i64 };
    let pq = Quat {
        w: half_cos_spec(pitch) as i64,
        x: fx_mul_spec(half_sin_spec(pitch), c.last_right.x as int) as i64,
        y: fx_mul_spec(half_sin_spec(pitch), c.last_right.y as int) as i64,
        z: fx_mul_spec(half_sin_spec(pitch), c.last_right.z as int) as i64,
    };
    quat_mul_spec(yq, quat_mul_spec(pq, c.orientation))
}

/// Where panning puts the target: the shared offset built from the view
/// basis and the scaled amounts, clamped into the world box.
pub open spec fn pan_target_spec(target: Vec3, rv: Vec3, uv: Vec3, kr: int, ku: int) -> Vec3 {
    clamp_vec_spec(
        vadd_spec(target, vadd_spec(crate::vec3::scale_spec(rv, kr), crate::vec3::scale_spec(uv, ku))),
        COORD_MAX_FX,
    )
}

pub struct Camera {
    /// Eye position, always derived from target, orientation and distance.
    pub position: Vec3,
    /// Point the camera looks at; moved by panning.
    pub target: Vec3,
    /// View-plane up vector handed to the view matrix.
    pub up: Vec3,
    /// Distance from target to eye, clamped to the zoom range.
    pub distance: i64,
    /// Near-unit orientation quaternion.
    pub orientation: Quat,
    /// Fixed world up axis; the third coordinate axis.
    pub world_up: Vec3,
    /// Cached right vector that keeps orbits continuous across the poles.
    pub last_right: Vec3,
    /// Snapshot taken at construction, restored by `reset_to_initial`.
    pub initial_position: Vec3,
    pub initial_target: Vec3,
    pub initial_orientation: Quat,
    pub initial_distance: i64,
}

impl Camera {
    /// Everything that holds of the camera except the derived position.
    pub open spec fn wf0(self) -> bool {
        &&& in_range(self.target, COORD_MAX_FX as int)
        &&& in_range(self.initial_target, COORD_MAX_FX as int)
        &&& in_range(self.initial_position, COORD_MAX_FX as int)
        &&& MIN_ZOOM_FX <= self.distance <= MAX_ZOOM_FX
        &&& MIN_ZOOM_FX <= self.initial_distance <= MAX_ZOOM_FX
        &&& nearly_unit_q(self.orientation)
        &&& nearly_unit_q(self.initial_orientation)
        &&& nearly_unit(self.last_right)
        &&& nearly_unit(self.up)
        &&& self.world_up == (Vec3 { x: 0, y: 0, z: FX_ONE })
    }

    /// Well-formedness: `wf0` plus the position being derived.
    pub open spec fn wf(self) -> bool {
        &&& self.wf0()
        &&& self.position == derived_position_spec(self.target, self.orientation, self.distance)
        &&& in_range(self.position, 0x20000000000)
    }

    /// Recomputes the eye position from orientation and distance, and
    /// refreshes the pole-stable right vector and the up vector.
    ///
    /// The cached right vector never reverses: its dot product with the
    /// previous value stays nonnegative, and near a pole it is left
    /// untouched.
    pub fn update_position(&mut self)
        requires
            old(self).wf0(),
        ensures
            final(self).wf(),
            final(self).target == old(self).target,
            final(self).distance == old(self).distance,
            final(self).orientation == old(self).orientation,
            final(self).world_up == old(self).world_up,
            final(self).initial_position == old(self).initial_position,
            final(self).initial_target == old(self).initial_target,
            final(self).initial_orientation == old(self).initial_orientation,
            final(self).initial_distance == old(self).initial_distance,
            final(self).position == derived_position_spec(
                old(self).target,
                old(self).orientation,
                old(self).distance,
            ),
            dot_wide_spec(final(self).last_right, old(self).last_right) >= 0,
            right_after_update_ok(old(self).orientation, old(self).last_right, final(self).last_right),
            up_after_update_ok(
                old(self).orientation,
                final(self).last_right,
                old(self).up,
                final(self).up,
            ),
        {
        let local = Vec3 { x: 0, y: -self.distance, z: 0 };
        let off_raw = rotate_vec(self.orientation, local);
        let off = clamp_vec(off_raw, OFFSET_MAX_FX);
        self.position = vadd(self.target, off);
        let fwd_raw = vneg(rotate_vec(self.orientation, unit_y()));
        let fwd = clamp_vec(fwd_raw, OFFSET_MAX_FX);
        let az: i64 = if fwd.z >= 0 {
            fwd.z
        } else {
            -fwd.z
        };
        if az > NEAR_POLE_FX {
            // Near the pole the fresh cross product is unstable: keep the
            // cached right vector.
        } else {
            let ch = clamp_vec(cross(fwd, self.world_up), OFFSET_MAX_FX);
            let cand = normalize_or(ch, self.last_right);
            let d_sign: i128 = crate::vec3::dot_wide(cand, self.last_right);
            if d_sign < 0 {
                proof {
                    lemma_vneg_norm(cand);
                    lemma_vneg_dot(cand, self.last_right);
                }
                self.last_right = vneg(cand);
            } else {
                self.last_right = cand;
            }
        }
        let cu = clamp_vec(cross(self.last_right, fwd), OFFSET_MAX_FX);
        let new_up = normalize_or(cu, self.up);
        self.up = new_up;
    }

    /// Rescales the distance by `1 + scroll * zoom speed`, clamps it into
    /// the zoom range, and rederives the position.  The distance is always
    /// inside `[MIN_ZOOM_FX, MAX_ZOOM_FX]` afterwards, whatever the scroll.
    pub fn zoom(&mut self, scroll: i64)
        requires
            old(self).wf(),
            -0x100000000 <= scroll <= 0x100000000,
        ensures
            final(self).wf(),
            MIN_ZOOM_FX <= final(self).distance <= MAX_ZOOM_FX,
            final(self).distance as int == clamp_spec(
                fx_mul_spec(
                    old(self).distance as int,
                    FX_ONE as int + fx_mul_spec(scroll as int, ZOOM_SPEED_FX as int),
                ),
                MIN_ZOOM_FX as int,
                MAX_ZOOM_FX as int,
            ),
            final(self).target == old(self).target,
            final(self).orientation == old(self).orientation,
            final(self).initial_position == old(self).initial_position,
            final(self).initial_target == old(self).initial_target,
            final(self).initial_orientation == old(self).initial_orientation,
            final(self).initial_distance == old(self).initial_distance,
            final(self).position == derived_position_spec(
                old(self).target,
                old(self).orientation,
                final(self).distance,
            ),
    {
        proof {
            lemma_mul_abs_bound(scroll as int, ZOOM_SPEED_FX as int, 0x100000000, 52429);
            lemma_tdiv_bounds(
                (scroll as int) * (ZOOM_SPEED_FX as int),
                FX_ONE as int,
                0x100000000int * 52429,
            );
        }
        let factor: i64 = FX_ONE + fx_mul(scroll, ZOOM_SPEED_FX);
        proof {
            lemma_mul_abs_bound(self.distance as int, factor as int, MAX_ZOOM_FX as int,
                0x20000000);
        }
        let scaled: i64 = fx_mul(self.distance, factor);
        self.distance = clamp_i64(scaled, MIN_ZOOM_FX, MAX_ZOOM_FX);
        self.update_position();
    }

    /// Pans in the view plane: position and target are translated by one
    /// shared offset, so the viewing direction, the distance and the
    /// orientation are untouched; the target is kept inside the world box.
    pub fn pan(&mut self, right_amount: i64, up_amount: i64)
        requires
            old(self).wf(),
            -0x10000000000 <= right_amount <= 0x10000000000,
            -0x10000000000 <= up_amount <= 0x10000000000,
        ensures
            final(self).wf(),
            final(self).position.x - final(self).target.x == old(self).position.x - old(
                self,
            ).target.x,
            final(self).position.y - final(self).target.y == old(self).position.y - old(
                self,
            ).target.y,
            final(self).position.z - final(self).target.z == old(self).position.z - old(
                self,
            ).target.z,
            final(self).distance == old(self).distance,
            final(self).orientation == old(self).orientation,
            final(self).up == old(self).up,
            final(self).last_right == old(self).last_right,
            final(self).world_up == old(self).world_up,
            final(self).initial_position == old(self).initial_position,
            final(self).initial_target == old(self).initial_target,
            final(self).initial_orientation == old(self).initial_orientation,
            final(self).initial_distance == old(self).initial_distance,
            in_range(final(self).target, COORD_MAX_FX as int),
            ({
                let ps = fx_mul_spec(old(self).distance as int, PAN_RATE_FX as int);
                let kr = fx_mul_spec(right_amount as int, ps);
                let ku = fx_mul_spec(up_amount as int, ps);
                exists|rv: Vec3, uv: Vec3|
                    {
                        &&& nearly_unit(rv)
                        &&& nearly_unit(uv)
                        &&& #[trigger] pan_target_spec(old(self).target, rv, uv, kr, ku)
                            == final(self).target
                    }
            }),
            ({
                let ps = fx_mul_spec(old(self).distance as int, PAN_RATE_FX as int);
                let kr = fx_mul_spec(right_amount as int, ps);
                let ku = fx_mul_spec(up_amount as int, ps);
                let dv = clamp_vec_spec(
                    vsub_spec(old(self).target, old(self).position),
                    OFFSET_MAX_FX,
                );
                exists|fv: Vec3, rv: Vec3, uv: Vec3|
                    {
                        let rc = clamp_vec_spec(cross_spec(fv, old(self).world_up), OFFSET_MAX_FX);
                        let uc = clamp_vec_spec(cross_spec(rv, fv), OFFSET_MAX_FX);
                        &&& #[trigger] nearly_unit(fv)
                        &&& nearly_unit(rv)
                        &&& nearly_unit(uv)
                        &&& (fv == (Vec3 { x: 0, y: FX_ONE, z: 0 }) || crate::vec3::rescaled_of(
                            dv,
                            fv,
                        ))
                        &&& (norm_sq_spec(dv) >= 17179869184 ==> crate::vec3::rescaled_of(dv, fv))
                        &&& (rv == (Vec3 { x: FX_ONE, y: 0, z: 0 }) || crate::vec3::rescaled_of(
                            rc,
                            rv,
                        ))
                        &&& (norm_sq_spec(rc) >= 17179869184 ==> crate::vec3::rescaled_of(rc, rv))
                        &&& (uv == (Vec3 { x: 0, y: 0, z: FX_ONE }) || crate::vec3::rescaled_of(
                            uc,
                            uv,
                        ))
                        &&& (norm_sq_spec(uc) >= 17179869184 ==> crate::vec3::rescaled_of(uc, uv))
                        &&& #[trigger] pan_target_spec(old(self).target, rv, uv, kr, ku)
                            == final(self).target
                    }
            }),
    {
        let dv = clamp_vec(vsub(self.target, self.position), OFFSET_MAX_FX);
        let fwd = normalize_or(dv, unit_y());
        let rightc = normalize_or(clamp_vec(cross(fwd, self.world_up), OFFSET_MAX_FX), unit_x());
        let upc = normalize_or(clamp_vec(cross(rightc, fwd), OFFSET_MAX_FX), unit_z());
        proof {
            lemma_mul_abs_bound(self.distance as int, PAN_RATE_FX as int, MAX_ZOOM_FX as int,
                PAN_RATE_FX as int);
            lemma_tdiv_bounds(
                (self.distance as int) * (PAN_RATE_FX as int),
                FX_ONE as int,
                (MAX_ZOOM_FX as int) * (PAN_RATE_FX as int),
            );
            assert((MAX_ZOOM_FX as int) * (PAN_RATE_FX as int) == 1099536793600int)
                by (nonlinear_arith);
        }
        let ps: i64 = fx_mul(self.distance, PAN_RATE_FX);
        proof {
            lemma_mul_abs_bound(right_amount as int, ps as int, 0x10000000000, 1048601);
            lemma_mul_abs_bound(up_amount as int, ps as int, 0x10000000000, 1048601);
            assert(0x10000000000int * 1048601 == 1152948992397541376int) by (nonlinear_arith);
            lemma_tdiv_bounds(
                (right_amount as int) * (ps as int),
                FX_ONE as int,
                1152948992397541376,
            );
            lemma_tdiv_bounds(
                (up_amount as int) * (ps as int),
                FX_ONE as int,
                1152948992397541376,
            );
        }
        let kr: i64 = fx_mul(right_amount, ps);
        let ku: i64 = fx_mul(up_amount, ps);
        proof {
            crate::vec3::lemma_scale_range(rightc, kr as int, FX_ONE as int, 0x20000000000);
            crate::vec3::lemma_scale_range(upc, ku as int, FX_ONE as int, 0x20000000000);
        }
        let pr = scale(rightc, kr);
        let pu = scale(upc, ku);
        let off = vadd(pr, pu);
        let desired = vadd(self.target, off);
        let newt = clamp_vec(desired, COORD_MAX_FX);
        let actual = vsub(newt, self.target);
        self.position = vadd(self.position, actual);
        self.target = newt;
        proof {
            let ps_s = fx_mul_spec(old(self).distance as int, PAN_RATE_FX as int);
            assert(nearly_unit(rightc) && nearly_unit(upc) && pan_target_spec(
                old(self).target,
                rightc,
                upc,
                fx_mul_spec(right_amount as int, ps_s),
                fx_mul_spec(up_amount as int, ps_s),
            ) == final(self).target);
            assert(nearly_unit(fwd) && pan_target_spec(
                old(self).target,
                rightc,
                upc,
                fx_mul_spec(right_amount as int, ps_s),
                fx_mul_spec(up_amount as int, ps_s),
            ) == final(self).target);
        }
    }

    /// Applies an incremental orbit: a yaw rotation about the world up axis
    /// and a pitch rotation about the cached right vector, composed onto
    /// the orientation, which is then renormalized; both deltas are clamped
    /// to the per-call rotation limit.  The orientation stays a near-unit
    /// quaternion under any sequence of such calls.
    pub fn orbit(&mut self, delta_yaw: i64, delta_pitch: i64)
        requires
            old(self).wf(),
        ensures
            final(self).wf(),
            nearly_unit_q(final(self).orientation),
            final(self).target == old(self).target,
            final(self).distance == old(self).distance,
            final(self).world_up == old(self).world_up,
            final(self).initial_position == old(self).initial_position,
            final(self).initial_target == old(self).initial_target,
            final(self).initial_orientation == old(self).initial_orientation,
            final(self).initial_distance == old(self).initial_distance,
            final(self).position == derived_position_spec(
                old(self).target,
                final(self).orientation,
                old(self).distance,
            ),
            dot_wide_spec(final(self).last_right, old(self).last_right) >= 0,
            ({
                let m2 = orbit_composed_spec(*old(self), delta_yaw as int, delta_pitch as int);
                final(self).orientation == old(self).orientation || (exists|n: int|
                    {
                        &&& 1 <= n
                        &&& n * n <= norm_sq_q_spec(m2)
                        &&& norm_sq_q_spec(m2) < (n + 1) * (n + 1)
                        &&& #[trigger] quat_scale_div_spec(m2, n) == final(self).orientation
                    })
            }),
            ({
                let m2 = orbit_composed_spec(*old(self), delta_yaw as int, delta_pitch as int);
                norm_sq_q_spec(m2) >= 274877906944 ==> (exists|n: int|
                    {
                        &&& 1 <= n
                        &&& n * n <= norm_sq_q_spec(m2)
                        &&& norm_sq_q_spec(m2) < (n + 1) * (n + 1)
                        &&& #[trigger] quat_scale_div_spec(m2, n) == final(self).orientation
                    })
            }),
    {
        let yaw: i64 = clamp_i64(delta_yaw, -MAX_ROTATION_FX, MAX_ROTATION_FX);
        let pitch: i64 = clamp_i64(delta_pitch, -MAX_ROTATION_FX, MAX_ROTATION_FX);
        let (cy, sy) = half_angle_cos_sin(yaw);
        let yaw_q = Quat { w: cy, x: 0, y: 0, z: sy };
        let (cp, sp) = half_angle_cos_sin(pitch);
        let ax = self.last_right;
        proof {
            lemma_mul_abs_bound(sp as int, ax.x as int, FX_ONE as int, FX_ONE as int);
            lemma_mul_abs_bound(sp as int, ax.y as int, FX_ONE as int, FX_ONE as int);
            lemma_mul_abs_bound(sp as int, ax.z as int, FX_ONE as int, FX_ONE as int);
            lemma_fx_one_sq();
            lemma_tdiv_bounds((sp as int) * (ax.x as int), FX_ONE as int, FX_ONE_SQ as int);
            lemma_tdiv_bounds((sp as int) * (ax.y as int), FX_ONE as int, FX_ONE_SQ as int);
            lemma_tdiv_bounds((sp as int) * (ax.z as int), FX_ONE as int, FX_ONE_SQ as int);
            assert((FX_ONE_SQ as int) / (FX_ONE as int) == FX_ONE as int);
        }
        let pq = Quat { w: cp, x: fx_mul(sp, ax.x), y: fx_mul(sp, ax.y), z: fx_mul(sp, ax.z) };
        proof {
            lemma_quat_mul_range(pq, self.orientation, FX_ONE as int, FX_ONE as int);
        }
        let m1 = quat_mul(pq, self.orientation);
        proof {
            lemma_quat_mul_range(yaw_q, m1, FX_ONE as int, 4 * (FX_ONE as int) + 1);
        }
        let m2 = quat_mul(yaw_q, m1);
        proof {
            assert(m2 == orbit_composed_spec(*old(self), delta_yaw as int, delta_pitch as int));
        }
        let newq = renormalize_or(m2, self.orientation);
        self.orientation = newq;
        self.update_position();
    }

    /// Restores target, distance and orientation from the construction
    /// snapshot, rebuilds the right vector by the construction rule, and
    /// rederives the position, which therefore equals the position held
    /// right after construction.
    pub fn reset_to_initial(&mut self)
        requires
            old(self).wf(),
        ensures
            final(self).wf(),
            final(self).target == old(self).initial_target,
            final(self).distance == old(self).initial_distance,
            final(self).orientation == old(self).initial_orientation,
            final(self).position == derived_position_spec(
                old(self).initial_target,
                old(self).initial_orientation,
                old(self).initial_distance,
            ),
            final(self).initial_position == old(self).initial_position,
            final(self).initial_target == old(self).initial_target,
            final(self).initial_orientation == old(self).initial_orientation,
            final(self).initial_distance == old(self).initial_distance,
            exists|r0: Vec3|
                {
                    &&& #[trigger] initial_right_ok(old(self).initial_orientation, r0)
                    &&& right_after_update_ok(
                        old(self).initial_orientation,
                        r0,
                        final(self).last_right,
                    )
                },
            up_after_update_ok(
                old(self).initial_orientation,
                final(self).last_right,
                old(self).up,
                final(self).up,
            ),
    {
        self.position = self.initial_position;
        self.target = self.initial_target;
        self.orientation = self.initial_orientation;
        self.distance = self.initial_distance;
        let r0 = initial_right(self.orientation);
        self.last_right = r0;
        self.update_position();
        proof {
            assert(initial_right_ok(old(self).initial_orientation, r0)
                && right_after_update_ok(
                old(self).initial_orientation,
                r0,
                final(self).last_right,
            ));
        }
    }

    /// Builds a camera looking from `position` toward `target`.  The
    /// distance is the clamped length of the offset, the orientation is the
    /// shortest rotation carrying the canonical view axis onto the offset
    /// direction, and a snapshot of the resulting state is stored for
    /// `reset_to_initial`.
    pub fn new(position: Vec3, target: Vec3) -> (r: Camera)
        requires
            in_range(position, COORD_MAX_FX as int),
            in_range(target, COORD_MAX_FX as int),
        ensures
            r.wf(),
            r.target == target,
            r.initial_position == position,
            r.initial_target == target,
            r.initial_orientation == r.orientation,
            r.initial_distance == r.distance,
            MIN_ZOOM_FX <= r.distance <= MAX_ZOOM_FX,
            exists|m: int|
                {
                    &&& 0 <= m
                    &&& m * m <= norm_sq_spec(vsub_spec(position, target))
                    &&& norm_sq_spec(vsub_spec(position, target)) < (m + 1) * (m + 1)
                    &&& #[trigger] clamp_spec(m, MIN_ZOOM_FX as int, MAX_ZOOM_FX as int)
                        == r.distance as int
                },
            r.position == derived_position_spec(target, r.orientation, r.distance),
            exists|dir: Vec3|
                {
                    &&& #[trigger] nearly_unit(dir)
                    &&& (norm_sq_spec(clamp_vec_spec(vsub_spec(position, target), OFFSET_MAX_FX))
                        >= 17179869184 ==> crate::vec3::rescaled_of(
                        clamp_vec_spec(vsub_spec(position, target), OFFSET_MAX_FX),
                        dir,
                    ))
                    &&& (r.orientation == (Quat { w: 0, x: 0, y: 0, z: FX_ONE }) || (exists|
                        n2: int,
                    |
                        {
                            &&& 1 <= n2
                            &&& #[trigger] quat_scale_div_spec(arc_quat_spec(dir), n2)
                                == r.orientation
                        }))
                    &&& (norm_sq_q_spec(arc_quat_spec(dir)) >= 274877906944 ==> (exists|n2: int|
                        {
                            &&& 1 <= n2
                            &&& n2 * n2 <= norm_sq_q_spec(arc_quat_spec(dir))
                            &&& norm_sq_q_spec(arc_quat_spec(dir)) < (n2 + 1) * (n2 + 1)
                            &&& #[trigger] quat_scale_div_spec(arc_quat_spec(dir), n2)
                                == r.orientation
                        }))
                },
            exists|r0: Vec3|
                {
                    &&& #[trigger] initial_right_ok(r.orientation, r0)
                    &&& right_after_update_ok(r.orientation, r0, r.last_right)
                },
            up_after_update_ok(
                r.orientation,
                r.last_right,
                Vec3 { x: 0, y: 0, z: FX_ONE },
                r.up,
            ),
    {
        let offset0 = vsub(position, target);
        let nsq: i128 = norm_sq_wide(offset0);
        let d_u: u128 = isqrt_u128(nsq as u128);
        let d: i64 = if d_u >= 104857600 {
            MAX_ZOOM_FX
        } else if d_u <= 524288 {
            MIN_ZOOM_FX
        } else {
            d_u as i64
        };
        proof {
            let m: int = d_u as int;
            assert(clamp_spec(m, MIN_ZOOM_FX as int, MAX_ZOOM_FX as int) == d as int);
            assert(m * m <= norm_sq_spec(vsub_spec(position, target)));
            assert(norm_sq_spec(vsub_spec(position, target)) < (m + 1) * (m + 1));
        }
        let dir = normalize_or(clamp_vec(offset0, OFFSET_MAX_FX), unit_y());
        let aq = Vec3 { x: 0, y: -FX_ONE, z: 0 };
        proof {
            lemma_mul_abs_bound(aq.y as int, dir.y as int, FX_ONE as int, FX_ONE as int);
            lemma_fx_one_sq();
            lemma_tdiv_bounds(dot_wide_spec(aq, dir), FX_ONE as int, 3 * (FX_ONE_SQ as int));
            assert(3 * (FX_ONE_SQ as int) / (FX_ONE as int) == 3 * (FX_ONE as int));
        }
        let dotv: i64 = dot_fx(aq, dir);
        proof {
            lemma_mul_abs_bound(aq.y as int, dir.z as int, FX_ONE as int, FX_ONE as int);
            lemma_mul_abs_bound(aq.z as int, dir.y as int, FX_ONE as int, FX_ONE as int);
            lemma_mul_abs_bound(aq.z as int, dir.x as int, FX_ONE as int, FX_ONE as int);
            lemma_mul_abs_bound(aq.x as int, dir.z as int, FX_ONE as int, FX_ONE as int);
            lemma_mul_abs_bound(aq.x as int, dir.y as int, FX_ONE as int, FX_ONE as int);
            lemma_mul_abs_bound(aq.y as int, dir.x as int, FX_ONE as int, FX_ONE as int);
            lemma_tdiv_bounds(
                (aq.y as int) * (dir.z as int) - (aq.z as int) * (dir.y as int),
                FX_ONE as int,
                2 * (FX_ONE_SQ as int),
            );
            lemma_tdiv_bounds(
                (aq.z as int) * (dir.x as int) - (aq.x as int) * (dir.z as int),
                FX_ONE as int,
                2 * (FX_ONE_SQ as int),
            );
            lemma_tdiv_bounds(
                (aq.x as int) * (dir.y as int) - (aq.y as int) * (dir.x as int),
                FX_ONE as int,
                2 * (FX_ONE_SQ as int),
            );
            assert(2 * (FX_ONE_SQ as int) / (FX_ONE as int) == 2 * (FX_ONE as int));
        }
        let cr = cross(aq, dir);
        let qraw = Quat { w: FX_ONE + dotv, x: cr.x, y: cr.y, z: cr.z };
        let half_turn = Quat { w: 0, x: 0, y: 0, z: FX_ONE };
        proof {
            lemma_fx_one_sq();
            assert(0int * 0int == 0int) by (nonlinear_arith);
            assert(norm_sq_q_spec(half_turn) == FX_ONE_SQ as int);
        }
        let orient = renormalize_or(qraw, half_turn);
        proof {
            assert(qraw == arc_quat_spec(dir));
        }
        let right0 = initial_right(orient);
        let mut cam = Camera {
            position,
            target,
            up: unit_z(),
            distance: d,
            orientation: orient,
            world_up: Vec3 { x: 0, y: 0, z: FX_ONE },
            last_right: right0,
            initial_position: position,
            initial_target: target,
            initial_orientation: orient,
            initial_distance: d,
        };
        cam.update_position();
        cam
    }

    /// The right-handed look-at view matrix for the current position,
    /// target and up vector.  No state is changed; the rows are assembled
    /// from a unit side vector, the induced up vector and the negated unit
    /// view direction.
    pub fn calc_matrix(&self) -> (r: Mat4)
        requires
            self.wf(),
        ensures
            exists|f: Vec3, s: Vec3|
                {
                    let dv = clamp_vec_spec(vsub_spec(self.target, self.position), OFFSET_MAX_FX);
                    let sc = clamp_vec_spec(cross_spec(f, self.up), OFFSET_MAX_FX);
                    &&& nearly_unit(f)
                    &&& nearly_unit(s)
                    &&& (f == (Vec3 { x: 0, y: FX_ONE, z: 0 }) || crate::vec3::rescaled_of(dv, f))
                    &&& (norm_sq_spec(dv) >= 17179869184 ==> crate::vec3::rescaled_of(dv, f))
                    &&& (s == (Vec3 { x: FX_ONE, y: 0, z: 0 }) || crate::vec3::rescaled_of(sc, s))
                    &&& (norm_sq_spec(sc) >= 17179869184 ==> crate::vec3::rescaled_of(sc, s))
                    &&& #[trigger] look_at_rows_spec(
                        s,
                        cross_spec(s, f),
                        f,
                        self.position,
                    ) == r
                },
    {
        let dv = clamp_vec(vsub(self.target, self.position), OFFSET_MAX_FX);
        let f = normalize_or(dv, unit_y());
        let sc = clamp_vec(cross(f, self.up), OFFSET_MAX_FX);
        let s = normalize_or(sc, unit_x());
        proof {
            lemma_mul_abs_bound(s.y as int, f.z as int, FX_ONE as int, FX_ONE as int);
            lemma_mul_abs_bound(s.z as int, f.y as int, FX_ONE as int, FX_ONE as int);
            lemma_mul_abs_bound(s.z as int, f.x as int, FX_ONE as int, FX_ONE as int);
            lemma_mul_abs_bound(s.x as int, f.z as int, FX_ONE as int, FX_ONE as int);
            lemma_mul_abs_bound(s.x as int, f.y as int, FX_ONE as int, FX_ONE as int);
            lemma_mul_abs_bound(s.y as int, f.x as int, FX_ONE as int, FX_ONE as int);
            lemma_fx_one_sq();
            lemma_tdiv_bounds(
                (s.y as int) * (f.z as int) - (s.z as int) * (f.y as int),
                FX_ONE as int,
                2 * (FX_ONE_SQ as int),
            );
            lemma_tdiv_bounds(
                (s.z as int) * (f.x as int) - (s.x as int) * (f.z as int),
                FX_ONE as int,
                2 * (FX_ONE_SQ as int),
            );
            lemma_tdiv_bounds(
                (s.x as int) * (f.y as int) - (s.y as int) * (f.x as int),
                FX_ONE as int,
                2 * (FX_ONE_SQ as int),
            );
            assert(2 * (FX_ONE_SQ as int) / (FX_ONE as int) == 2 * (FX_ONE as int));
        }
        let u = cross(s, f);
        proof {
            lemma_mul_abs_bound(s.x as int, self.position.x as int, 0x400000, 0x20000000000);
            lemma_mul_abs_bound(s.y as int, self.position.y as int, 0x400000, 0x20000000000);
            lemma_mul_abs_bound(s.z as int, self.position.z as int, 0x400000, 0x20000000000);
            lemma_mul_abs_bound(u.x as int, self.position.x as int, 0x400000, 0x20000000000);
            lemma_mul_abs_bound(u.y as int, self.position.y as int, 0x400000, 0x20000000000);
            lemma_mul_abs_bound(u.z as int, self.position.z as int, 0x400000, 0x20000000000);
            lemma_mul_abs_bound(f.x as int, self.position.x as int, 0x400000, 0x20000000000);
            lemma_mul_abs_bound(f.y as int, self.position.y as int, 0x400000, 0x20000000000);
            lemma_mul_abs_bound(f.z as int, self.position.z as int, 0x400000, 0x20000000000);
            lemma_tdiv_bounds(dot_wide_spec(s, self.position), FX_ONE as int, 0x18000000000000000);
            lemma_tdiv_bounds(dot_wide_spec(u, self.position), FX_ONE as int, 0x18000000000000000);
            lemma_tdiv_bounds(dot_wide_spec(f, self.position), FX_ONE as int, 0x18000000000000000);
        }
        let ts: i64 = dot_fx(s, self.position);
        let tu: i64 = dot_fx(u, self.position);
        let tf: i64 = dot_fx(f, self.position);
        let m = Mat4 {
            r0: Vec4 { x: s.x, y: s.y, z: s.z, w: -ts },
            r1: Vec4 { x: u.x, y: u.y, z: u.z, w: -tu },
            r2: Vec4 { x: -f.x, y: -f.y, z: -f.z, w: tf },
            r3: Vec4 { x: 0, y: 0, z: 0, w: FX_ONE },
        };
        proof {
            assert({
                &&& nearly_unit(f)
                &&& nearly_unit(s)
                &&& look_at_rows_spec(s, cross_spec(s, f), f, self.position) == m
            });
        }
        m
    }
}

/// The construction-time right vector: perpendicular to the view axis and
/// the world up axis, or the first coordinate axis when the view is locked
/// onto a pole.
fn initial_right(q: Quat) -> (r: Vec3)
    requires
        nearly_unit_q(q),
    ensures
        nearly_unit(r),
        initial_right_ok(q, r),
{
    let fwd = clamp_vec(vneg(rotate_vec(q, unit_y())), OFFSET_MAX_FX);
    let az: i64 = if fwd.z >= 0 {
        fwd.z
    } else {
        -fwd.z
    };
    if az > POLE_LOCK_FX {
        unit_x()
    } else {
        normalize_or(clamp_vec(cross(fwd, unit_z()), OFFSET_MAX_FX), unit_x())
    }
}

/// The well-formedness invariant keeps the orientation a near-unit
/// quaternion: since every camera operation preserves `wf`, the unit-norm
/// property holds after any sequence of them.
pub proof fn lemma_wf_orientation_near_unit(c: Camera)
    requires
        c.wf(),
    ensures
        nearly_unit_q(c.orientation),
{
}

/// The well-formedness invariant keeps the distance inside the zoom range:
/// since every camera operation preserves `wf`, the clamp bounds hold
/// after any sequence of them.
pub proof fn lemma_wf_distance_clamped(c: Camera)
    requires
        c.wf(),
    ensures
        MIN_ZOOM_FX <= c.distance <= MAX_ZOOM_FX,
{
}

/// A key the controller reacts to, as classified by the input layer.
#[derive(Clone, Copy, PartialEq, Eq, Structural, Debug)]
pub enum CameraKey {
    KeyW,
    KeyS,
    KeyA,
    KeyD,
    ArrowUp,
    ArrowDown,
    ArrowLeft,
    ArrowRight,
    KeyC,
    AltLeft,
    AltRight,
    Other,
}

/// Whether a key or button went down or up.
#[derive(Clone, Copy, PartialEq, Eq, Structural, Debug)]
pub enum ButtonState {
    Pressed,
    Released,
}

/// A mouse button, as classified by the input layer.
#[derive(Clone, Copy, PartialEq, Eq, Structural, Debug)]
pub enum PointerButton {
    Left,
    Right,
    Middle,
    Other,
}

/// A scroll step: whole lines, or raw pixels that are scaled down.
#[derive(Clone, Copy, PartialEq, Eq, Structural, Debug)]
pub enum ScrollAmount {
    Lines(i64),
    Pixels(i64),
}

/// Scale applied to pixel scroll deltas: five thousandths.
pub const PIXEL_SCROLL_RATE_FX: i64 = 5243;

/// Speed multiplier for orbit rotation: one and a half.
pub const ORBIT_SPEED_FX: i64 = 1572864;

/// Sensitivity factor applied to middle-button panning: one tenth.
pub const MOUSE_PAN_RATE_FX: i64 = 104858;


/// The keyboard pan amounts one frame applies: the held-key balance times
/// the speed, times the frame time.
pub open spec fn key_pan_right_spec(c: CameraController, dt: int) -> int {
    fx_mul_spec(fx_mul_spec(c.amount_right - c.amount_left, c.speed as int), dt)
}

pub open spec fn key_pan_up_spec(c: CameraController, dt: int) -> int {
    fx_mul_spec(fx_mul_spec(c.amount_up - c.amount_down, c.speed as int), dt)
}

/// The mouse pan amounts one frame applies: the drag deltas scaled by
/// speed, sensitivity and the mouse pan rate, with the horizontal axis
/// reversed.
pub open spec fn mouse_pan_right_spec(c: CameraController) -> int {
    fx_mul_spec(
        -(c.mouse_pan_x as int),
        fx_mul_spec(
            fx_mul_spec(c.speed as int, c.sensitivity as int),
            MOUSE_PAN_RATE_FX as int,
        ),
    )
}

pub open spec fn mouse_pan_up_spec(c: CameraController) -> int {
    fx_mul_spec(
        c.mouse_pan_y as int,
        fx_mul_spec(
            fx_mul_spec(c.speed as int, c.sensitivity as int),
            MOUSE_PAN_RATE_FX as int,
        ),
    )
}

/// The orbit deltas one frame applies: the drag deltas scaled by the
/// orbit speed, the sensitivity and the frame time, with the vertical
/// axis reversed unless inversion is configured.
pub open spec fn orbit_yaw_delta_spec(c: CameraController, dt: int) -> int {
    fx_mul_spec(
        c.mouse_delta_x as int,
        fx_mul_spec(fx_mul_spec(ORBIT_SPEED_FX as int, c.sensitivity as int), dt),
    )
}

pub open spec fn orbit_pitch_delta_spec(c: CameraController, dt: int) -> int {
    let mult = fx_mul_spec(fx_mul_spec(ORBIT_SPEED_FX as int, c.sensitivity as int), dt);
    if c.orbit_invert_y {
        fx_mul_spec(c.mouse_delta_y as int, mult)
    } else {
        fx_mul_spec(-(c.mouse_delta_y as int), mult)
    }
}

/// One pan applied to a target: along some view-plane basis pair the
/// target moved by the amounts scaled with the distance, and was clamped
/// into the world box - the shape `Camera::pan` guarantees.
pub open spec fn pan_step_spec(t0: Vec3, t1: Vec3, d: i64, ra: int, ua: int) -> bool {
    let ps = fx_mul_spec(d as int, PAN_RATE_FX as int);
    exists|rv: Vec3, uv: Vec3|
        {
            &&& nearly_unit(rv)
            &&& nearly_unit(uv)
            &&& #[trigger] pan_target_spec(t0, rv, uv, fx_mul_spec(ra, ps), fx_mul_spec(ua, ps))
                == t1
        }
}

/// Accumulates classified input events and drives a `Camera` once per
/// frame: panning while the middle button drags or pan keys are held,
/// orbiting while the right button drags, zooming on scroll, and a reset
/// key that restores the construction view.
pub struct CameraController {
    pub amount_left: i64,
    pub amount_right: i64,
    pub amount_up: i64,
    pub amount_down: i64,
    pub mouse_pan_x: i64,
    pub mouse_pan_y: i64,
    pub is_panning: bool,
    pub mouse_delta_x: i64,
    pub mouse_delta_y: i64,
    pub is_orbiting: bool,
    pub alt_pressed: bool,
    pub scroll: i64,
    pub speed: i64,
    pub sensitivity: i64,
    pub orbit_invert_y: bool,
    pub reset_camera_pressed: bool,
}

impl CameraController {
    /// Bounds every accumulated value so one frame of input can never
    /// overflow the fixed-point pipeline.
    pub open spec fn wf(self) -> bool {
        &&& 0 <= self.amount_left <= FX_ONE
        &&& 0 <= self.amount_right <= FX_ONE
        &&& 0 <= self.amount_up <= FX_ONE
        &&& 0 <= self.amount_down <= FX_ONE
        &&& -0x40000000 <= self.mouse_pan_x <= 0x40000000
        &&& -0x40000000 <= self.mouse_pan_y <= 0x40000000
        &&& -0x40000000 <= self.mouse_delta_x <= 0x40000000
        &&& -0x40000000 <= self.mouse_delta_y <= 0x40000000
        &&& -0x100000000 <= self.scroll <= 0x100000000
        &&& 0 <= self.speed <= 0x2000000
        &&& 0 <= self.sensitivity <= 0x2000000
    }

    pub fn new(speed: i64, sensitivity: i64) -> (r: CameraController)
        requires
            0 <= speed <= 0x2000000,
            0 <= sensitivity <= 0x2000000,
        ensures
            r.wf(),
            r == (CameraController {
                amount_left: 0,
                amount_right: 0,
                amount_up: 0,
                amount_down: 0,
                mouse_pan_x: 0,
                mouse_pan_y: 0,
                is_panning: false,
                mouse_delta_x: 0,
                mouse_delta_y: 0,
                is_orbiting: false,
                alt_pressed: false,
                scroll: 0,
                speed,
                sensitivity,
                orbit_invert_y: false,
                reset_camera_pressed: false,
            }),
    {
        CameraController {
            amount_left: 0,
            amount_right: 0,
            amount_up: 0,
            amount_down: 0,
            mouse_pan_x: 0,
            mouse_pan_y: 0,
            is_panning: false,
            mouse_delta_x: 0,
            mouse_delta_y: 0,
            is_orbiting: false,
            alt_pressed: false,
            scroll: 0,
            speed,
            sensitivity,
            orbit_invert_y: false,
            reset_camera_pressed: false,
        }
    }

    /// Handles a pan, reset or modifier key.  Returns whether the key was
    /// one the camera reacts to; pan amounts go to full scale while the
    /// key is held and back to zero on release, and the reset key arms the
    /// reset flag on press.
    pub fn process_keyboard(&mut self, key: CameraKey, state: ButtonState) -> (handled: bool)
        requires
            old(self).wf(),
        ensures
            final(self).wf(),
            handled == (key != CameraKey::Other),
            ({
                let amount: i64 = if state == ButtonState::Pressed {
                    FX_ONE
                } else {
                    0
                };
                match key {
                    CameraKey::KeyW | CameraKey::ArrowUp => *final(self) == (CameraController {
                        amount_up: amount,
                        ..*old(self)
                    }),
                    CameraKey::KeyS | CameraKey::ArrowDown => *final(self) == (CameraController {
                        amount_down: amount,
                        ..*old(self)
                    }),
                    CameraKey::KeyA | CameraKey::ArrowLeft => *final(self) == (CameraController {
                        amount_left: amount,
                        ..*old(self)
                    }),
                    CameraKey::KeyD | CameraKey::ArrowRight => *final(self) == (CameraController {
                        amount_right: amount,
                        ..*old(self)
                    }),
                    CameraKey::KeyC => *final(self) == (CameraController {
                        reset_camera_pressed: old(self).reset_camera_pressed || state
                            == ButtonState::Pressed,
                        ..*old(self)
                    }),
                    CameraKey::AltLeft | CameraKey::AltRight => *final(self) == (CameraController {
                        alt_pressed: state == ButtonState::Pressed,
                        ..*old(self)
                    }),
                    CameraKey::Other => *final(self) == *old(self),
                }
            }),
    {
        let amount: i64 = if state == ButtonState::Pressed {
            FX_ONE
        } else {
            0
        };
        match key {
            CameraKey::KeyW | CameraKey::ArrowUp => {
                self.amount_up = amount;
                true
            },
            CameraKey::KeyS | CameraKey::ArrowDown => {
                self.amount_down = amount;
                true
            },
            CameraKey::KeyA | CameraKey::ArrowLeft => {
                self.amount_left = amount;
                true
            },
            CameraKey::KeyD | CameraKey::ArrowRight => {
                self.amount_right = amount;
                true
            },
            CameraKey::KeyC => {
                if state == ButtonState::Pressed {
                    self.reset_camera_pressed = true;
                }
                true
            },
            CameraKey::AltLeft | CameraKey::AltRight => {
                self.alt_pressed = state == ButtonState::Pressed;
                true
            },
            CameraKey::Other => false,
        }
    }

    /// Records mouse movement: orbit deltas while orbiting (with optional
    /// vertical inversion), pan deltas while panning.
    pub fn process_mouse(&mut self, mouse_dx: i64, mouse_dy: i64)
        requires
            old(self).wf(),
            -0x40000000 <= mouse_dx <= 0x40000000,
            -0x40000000 <= mouse_dy <= 0x40000000,
        ensures
            final(self).wf(),
            *final(self) == (CameraController {
                mouse_delta_x: if old(self).is_orbiting {
                    mouse_dx
                } else {
                    old(self).mouse_delta_x
                },
                mouse_delta_y: if old(self).is_orbiting {
                    if old(self).orbit_invert_y {
                        (-mouse_dy) as i64
                    } else {
                        mouse_dy
                    }
                } else {
                    old(self).mouse_delta_y
                },
                mouse_pan_x: if old(self).is_panning {
                    mouse_dx
                } else {
                    old(self).mouse_pan_x
                },
                mouse_pan_y: if old(self).is_panning {
                    mouse_dy
                } else {
                    old(self).mouse_pan_y
                },
                ..*old(self)
            }),
    {
        if self.is_orbiting {
            self.mouse_delta_x = mouse_dx;
            self.mouse_delta_y = if self.orbit_invert_y {
                -mouse_dy
            } else {
                mouse_dy
            };
        }
        if self.is_panning {
            self.mouse_pan_x = mouse_dx;
            self.mouse_pan_y = mouse_dy;
        }
    }

    /// Tracks the orbit and pan drag buttons, clearing the accumulated
    /// deltas when the matching button is released.  Returns whether the
    /// button is one the camera uses.
    pub fn process_mouse_button(&mut self, state: ButtonState, button: PointerButton) -> (handled:
        bool)
        requires
            old(self).wf(),
        ensures
            final(self).wf(),
            handled == (button == PointerButton::Right || button == PointerButton::Middle),
            match button {
                PointerButton::Right => *final(self) == (CameraController {
                    is_orbiting: state == ButtonState::Pressed,
                    mouse_delta_x: if state == ButtonState::Pressed {
                        old(self).mouse_delta_x
                    } else {
                        0
                    },
                    mouse_delta_y: if state == ButtonState::Pressed {
                        old(self).mouse_delta_y
                    } else {
                        0
                    },
                    ..*old(self)
                }),
                PointerButton::Middle => *final(self) == (CameraController {
                    is_panning: state == ButtonState::Pressed,
                    mouse_pan_x: if state == ButtonState::Pressed {
                        old(self).mouse_pan_x
                    } else {
                        0
                    },
                    mouse_pan_y: if state == ButtonState::Pressed {
                        old(self).mouse_pan_y
                    } else {
                        0
                    },
                    ..*old(self)
                }),
                _ => *final(self) == *old(self),
            },
    {
        match button {
            PointerButton::Right => {
                self.is_orbiting = state == ButtonState::Pressed;
                if !self.is_orbiting {
                    self.mouse_delta_x = 0;
                    self.mouse_delta_y = 0;
                }
                true
            },
            PointerButton::Middle => {
                self.is_panning = state == ButtonState::Pressed;
                if !self.is_panning {
                    self.mouse_pan_x = 0;
                    self.mouse_pan_y = 0;
                }
                true
            },
            _ => false,
        }
    }

    /// Converts a scroll step into a signed zoom amount: line steps count
    /// whole, pixel steps are scaled well down, and both push the view
    /// away for positive input.
    pub fn process_scroll(&mut self, delta: &ScrollAmount)
        requires
            old(self).wf(),
            match *delta {
                ScrollAmount::Lines(l) => -0x100000000 <= l <= 0x100000000,
                ScrollAmount::Pixels(p) => -0x100000000 <= p <= 0x100000000,
            },
        ensures
            final(self).wf(),
            *final(self) == (CameraController {
                scroll: match *delta {
                    ScrollAmount::Lines(l) => (-l) as i64,
                    ScrollAmount::Pixels(p) => fx_mul_spec(
                        -(p as int),
                        PIXEL_SCROLL_RATE_FX as int,
                    ) as i64,
                },
                ..*old(self)
            }),
    {
        match *delta {
            ScrollAmount::Lines(l) => {
                self.scroll = -l;
            },
            ScrollAmount::Pixels(p) => {
                proof {
                    lemma_mul_abs_bound(-(p as int), PIXEL_SCROLL_RATE_FX as int, 0x100000000,
                        5243);
                    lemma_tdiv_bounds(
                        (-(p as int)) * (PIXEL_SCROLL_RATE_FX as int),
                        FX_ONE as int,
                        0x100000000int * 5243,
                    );
                    assert(0x100000000int * 5243 == 22518513532928int) by (nonlinear_arith);
                }
                self.scroll = fx_mul(-p, PIXEL_SCROLL_RATE_FX);
            },
        }
    }

    /// Applies one frame of accumulated input to the camera: keyboard and
    /// mouse panning, orbiting, zooming, and finally the reset key.  The
    /// camera stays well formed; its snapshot fields are untouched; the
    /// scroll and reset accumulators are consumed; and when the reset key
    /// was armed the camera leaves with its construction target, distance
    /// and orientation.
    pub fn update_camera(&mut self, camera: &mut Camera, dt: i64)
        requires
            old(self).wf(),
            old(camera).wf(),
            0 <= dt <= 0x6400000,
        ensures
            final(self).wf(),
            final(camera).wf(),
            final(self).scroll == 0,
            !final(self).reset_camera_pressed,
            final(camera).initial_position == old(camera).initial_position,
            final(camera).initial_target == old(camera).initial_target,
            final(camera).initial_orientation == old(camera).initial_orientation,
            final(camera).initial_distance == old(camera).initial_distance,
            MIN_ZOOM_FX <= final(camera).distance <= MAX_ZOOM_FX,
            old(self).reset_camera_pressed ==> {
                &&& final(camera).target == old(camera).initial_target
                &&& final(camera).distance == old(camera).initial_distance
                &&& final(camera).orientation == old(camera).initial_orientation
            },
            !old(self).reset_camera_pressed && old(self).scroll != 0
                ==> final(camera).distance as int == clamp_spec(
                fx_mul_spec(
                    old(camera).distance as int,
                    FX_ONE as int + fx_mul_spec(old(self).scroll as int, ZOOM_SPEED_FX as int),
                ),
                MIN_ZOOM_FX as int,
                MAX_ZOOM_FX as int,
            ),
            !old(self).reset_camera_pressed && old(self).scroll == 0 ==> final(camera).distance
                == old(camera).distance,
            ({
                let orbiting = old(self).is_orbiting && (old(self).mouse_delta_x != 0 || old(
                    self,
                ).mouse_delta_y != 0);
                let m2 = orbit_composed_spec(
                    *old(camera),
                    orbit_yaw_delta_spec(*old(self), dt as int),
                    orbit_pitch_delta_spec(*old(self), dt as int),
                );
                &&& (!old(self).reset_camera_pressed && orbiting ==> {
                    ||| final(camera).orientation == old(camera).orientation
                    ||| exists|n: int|
                        {
                            &&& 1 <= n
                            &&& n * n <= norm_sq_q_spec(m2)
                            &&& norm_sq_q_spec(m2) < (n + 1) * (n + 1)
                            &&& #[trigger] quat_scale_div_spec(m2, n) == final(camera).orientation
                        }
                })
                &&& (!old(self).reset_camera_pressed && orbiting && norm_sq_q_spec(m2)
                    >= 274877906944 ==> exists|n: int|
                    {
                        &&& 1 <= n
                        &&& n * n <= norm_sq_q_spec(m2)
                        &&& norm_sq_q_spec(m2) < (n + 1) * (n + 1)
                        &&& #[trigger] quat_scale_div_spec(m2, n) == final(camera).orientation
                    })
                &&& (!old(self).reset_camera_pressed && !orbiting ==> final(camera).orientation
                    == old(camera).orientation)
            }),
            ({
                let kr = key_pan_right_spec(*old(self), dt as int);
                let ku = key_pan_up_spec(*old(self), dt as int);
                let mr = mouse_pan_right_spec(*old(self));
                let mu = mouse_pan_up_spec(*old(self));
                let key_fires = kr != 0 || ku != 0;
                let mouse_fires = old(self).is_panning && (old(self).mouse_pan_x != 0 || old(
                    self,
                ).mouse_pan_y != 0);
                &&& (!old(self).reset_camera_pressed && key_fires && mouse_fires ==> exists|
                    tmid: Vec3,
                |
                    {
                        &&& #[trigger] pan_step_spec(
                            old(camera).target,
                            tmid,
                            old(camera).distance,
                            kr,
                            ku,
                        )
                        &&& pan_step_spec(
                            tmid,
                            final(camera).target,
                            old(camera).distance,
                            mr,
                            mu,
                        )
                    })
                &&& (!old(self).reset_camera_pressed && key_fires && !mouse_fires ==> pan_step_spec(
                    old(camera).target,
                    final(camera).target,
                    old(camera).distance,
                    kr,
                    ku,
                ))
                &&& (!old(self).reset_camera_pressed && !key_fires && mouse_fires ==> pan_step_spec(
                    old(camera).target,
                    final(camera).target,
                    old(camera).distance,
                    mr,
                    mu,
                ))
                &&& (!old(self).reset_camera_pressed && !key_fires && !mouse_fires
                    ==> final(camera).target == old(camera).target)
            }),
    {
        // Keyboard panning with the pan keys.
        proof {
            lemma_mul_abs_bound((self.amount_right - self.amount_left) as int, self.speed as int,
                FX_ONE as int, 0x2000000);
            lemma_mul_abs_bound((self.amount_up - self.amount_down) as int, self.speed as int,
                FX_ONE as int, 0x2000000);
            lemma_tdiv_bounds(
                ((self.amount_right - self.amount_left) as int) * (self.speed as int),
                FX_ONE as int,
                (FX_ONE as int) * 0x2000000,
            );
            lemma_tdiv_bounds(
                ((self.amount_up - self.amount_down) as int) * (self.speed as int),
                FX_ONE as int,
                (FX_ONE as int) * 0x2000000,
            );
            assert((FX_ONE as int) * 0x2000000 == 35184372088832int) by (nonlinear_arith);
        }
        let kr0: i64 = fx_mul(self.amount_right - self.amount_left, self.speed);
        let ku0: i64 = fx_mul(self.amount_up - self.amount_down, self.speed);
        proof {
            lemma_mul_abs_bound(kr0 as int, dt as int, 0x2000000, 0x6400000);
            lemma_mul_abs_bound(ku0 as int, dt as int, 0x2000000, 0x6400000);
            lemma_tdiv_bounds((kr0 as int) * (dt as int), FX_ONE as int, 0x2000000int * 0x6400000);
            lemma_tdiv_bounds((ku0 as int) * (dt as int), FX_ONE as int, 0x2000000int * 0x6400000);
            assert(0x2000000int * 0x6400000 == 3518437208883200int) by (nonlinear_arith);
        }
        let key_pan_right: i64 = fx_mul(kr0, dt);
        let key_pan_up: i64 = fx_mul(ku0, dt);
        proof {
            assert(key_pan_right as int == key_pan_right_spec(*old(self), dt as int));
            assert(key_pan_up as int == key_pan_up_spec(*old(self), dt as int));
        }
        if key_pan_right != 0 || key_pan_up != 0 {
            camera.pan(key_pan_right, key_pan_up);
            proof {
                assert(pan_step_spec(
                    old(camera).target,
                    camera.target,
                    old(camera).distance,
                    key_pan_right as int,
                    key_pan_up as int,
                ));
            }
        }
        let ghost t_mid = camera.target;
        // Mouse panning with the middle button held.
        if self.is_panning && (self.mouse_pan_x != 0 || self.mouse_pan_y != 0) {
            proof {
                lemma_mul_abs_bound(self.speed as int, self.sensitivity as int, 0x2000000,
                    0x2000000);
                lemma_tdiv_bounds(
                    (self.speed as int) * (self.sensitivity as int),
                    FX_ONE as int,
                    0x2000000int * 0x2000000,
                );
                assert(0x2000000int * 0x2000000 == 0x4000000000000int) by (nonlinear_arith);
            }
            let ss: i64 = fx_mul(self.speed, self.sensitivity);
            proof {
                lemma_mul_abs_bound(ss as int, MOUSE_PAN_RATE_FX as int, 0x40000000, 104858);
                lemma_tdiv_bounds(
                    (ss as int) * (MOUSE_PAN_RATE_FX as int),
                    FX_ONE as int,
                    0x40000000int * 104858,
                );
                assert(0x40000000int * 104858 == 112590420180992int) by (nonlinear_arith);
            }
            let mps: i64 = fx_mul(ss, MOUSE_PAN_RATE_FX);
            proof {
                lemma_mul_abs_bound(-(self.mouse_pan_x as int), mps as int, 0x40000000, 107375000);
                lemma_mul_abs_bound(self.mouse_pan_y as int, mps as int, 0x40000000, 107375000);
                assert(0x40000000int * 107375000 == 115293028352000000int) by (nonlinear_arith);
                lemma_tdiv_bounds(
                    (-(self.mouse_pan_x as int)) * (mps as int),
                    FX_ONE as int,
                    115293028352000000,
                );
                lemma_tdiv_bounds(
                    (self.mouse_pan_y as int) * (mps as int),
                    FX_ONE as int,
                    115293028352000000,
                );
            }
            let mouse_pan_right: i64 = fx_mul(-self.mouse_pan_x, mps);
            let mouse_pan_up: i64 = fx_mul(self.mouse_pan_y, mps);
            proof {
                assert(mouse_pan_right as int == mouse_pan_right_spec(*old(self)));
                assert(mouse_pan_up as int == mouse_pan_up_spec(*old(self)));
            }
            camera.pan(mouse_pan_right, mouse_pan_up);
            proof {
                assert(pan_step_spec(
                    t_mid,
                    camera.target,
                    old(camera).distance,
                    mouse_pan_right as int,
                    mouse_pan_up as int,
                ));
            }
        }
        // Orbiting with the right button held: the camera clamps the
        // deltas to its per-call rotation limit.
        if self.is_orbiting && (self.mouse_delta_x != 0 || self.mouse_delta_y != 0) {
            proof {
                lemma_mul_abs_bound(ORBIT_SPEED_FX as int, self.sensitivity as int, 1572864,
                    0x2000000);
                lemma_tdiv_bounds(
                    (ORBIT_SPEED_FX as int) * (self.sensitivity as int),
                    FX_ONE as int,
                    1572864int * 0x2000000,
                );
                assert(1572864int * 0x2000000 == 52776558133248int) by (nonlinear_arith);
            }
            let os: i64 = fx_mul(ORBIT_SPEED_FX, self.sensitivity);
            proof {
                lemma_mul_abs_bound(os as int, dt as int, 50331648, 0x6400000);
                lemma_tdiv_bounds((os as int) * (dt as int), FX_ONE as int, 50331648int
                    * 0x6400000);
                assert(50331648int * 0x6400000 == 5277655813324800int) by (nonlinear_arith);
            }
            let mult: i64 = fx_mul(os, dt);
            proof {
                lemma_mul_abs_bound(self.mouse_delta_x as int, mult as int, 0x40000000,
                    5033164800);
                lemma_mul_abs_bound(-(self.mouse_delta_y as int), mult as int, 0x40000000,
                    5033164800);
                lemma_mul_abs_bound(self.mouse_delta_y as int, mult as int, 0x40000000,
                    5033164800);
                lemma_tdiv_bounds(
                    (self.mouse_delta_x as int) * (mult as int),
                    FX_ONE as int,
                    0x40000000int * 5033164800,
                );
                lemma_tdiv_bounds(
                    (-(self.mouse_delta_y as int)) * (mult as int),
                    FX_ONE as int,
                    0x40000000int * 5033164800,
                );
            }
            let yaw_delta: i64 = fx_mul(self.mouse_delta_x, mult);
            let pitch_delta: i64 = if self.orbit_invert_y {
                fx_mul(self.mouse_delta_y, mult)
            } else {
                fx_mul(-self.mouse_delta_y, mult)
            };
            proof {
                assert(yaw_delta as int == orbit_yaw_delta_spec(*old(self), dt as int));
                assert(pitch_delta as int == orbit_pitch_delta_spec(*old(self), dt as int));
                assert(orbit_composed_spec(*camera, yaw_delta as int, pitch_delta as int)
                    == orbit_composed_spec(*old(camera), yaw_delta as int, pitch_delta as int));
            }
            camera.orbit(yaw_delta, pitch_delta);
        }
        // Zooming with the scroll wheel.
        if self.scroll != 0 {
            camera.zoom(self.scroll);
            self.scroll = 0;
        } else {
            self.scroll = 0;
        }
        // Reset on the dedicated key.
        if self.reset_camera_pressed {
            camera.reset_to_initial();
            self.reset_camera_pressed = false;
        }
    }
}

} // verus!
