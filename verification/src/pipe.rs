//! Procedural pipe meshes: one watertight cylinder per line segment.
//!
//! Every non-degenerate segment contributes exactly `2 * sides + 2`
//! vertices (two cap centers and two rings of rim vertices) and
//! `12 * sides` indices (`sides` triangles per cap and `2 * sides` on the
//! side wall), wound counter-clockwise as seen from outside.  Degenerate
//! segments - zero length, or a radius that is not positive - contribute
//! nothing at all.  Segment blocks concatenate with indices offset by the
//! running vertex count, so the combined mesh is always valid.

use vstd::prelude::*;

verus! {

use crate::fx::{FX_ONE, FX_ONE_SQ, tdiv, clamp_spec};
use crate::vec3::{
    Vec3, in_range, nearly_unit, norm_sq_spec, cross_spec, vsub, vadd, scale, cross, clamp_vec,
    normalize_or, direction_or, unit_x, unit_y, unit_z, lemma_scale_range,
};
use crate::trig::{circle_point, turn_cos_spec, turn_sin_spec, TWO_PI_FX};

/// Half-width of the box that segment endpoints must lie in.
pub const SEG_COORD_MAX_FX: i64 = 0x400000000;

/// Largest pipe radius accepted, a kiloton of a unit more than any scene needs.
pub const SEG_RADIUS_MAX_FX: i64 = 0x40000000;

/// A line segment to be rendered as a cylinder of the given radius and
/// flat color.
#[derive(Clone, Copy, PartialEq, Eq, Structural, Debug)]
pub struct LineSegment {
    pub start: Vec3,
    pub end: Vec3,
    pub color: Vec3,
    pub radius: i64,
}

/// An output vertex: a position and the flat color of its segment.
#[derive(Clone, Copy, PartialEq, Eq, Structural, Debug)]
pub struct PipeVertex {
    pub position: Vec3,
    pub color: Vec3,
}

/// A segment that produces no geometry: its endpoints coincide or its
/// radius is not positive.
pub open spec fn seg_degenerate(s: LineSegment) -> bool {
    s.start == s.end || s.radius <= 0
}

pub open spec fn seg_in_bounds(s: LineSegment) -> bool {
    &&& in_range(s.start, SEG_COORD_MAX_FX as int)
    &&& in_range(s.end, SEG_COORD_MAX_FX as int)
    &&& s.radius <= SEG_RADIUS_MAX_FX
}

/// How many segments of the list produce geometry.
pub open spec fn live_count(segs: Seq<LineSegment>) -> int
    decreases segs.len(),
{
    if segs.len() == 0 {
        0
    } else {
        live_count(segs.drop_last()) + if seg_degenerate(segs.last()) {
            0int
        } else {
            1int
        }
    }
}

pub proof fn lemma_live_count_bounds(segs: Seq<LineSegment>)
    ensures
        0 <= live_count(segs) <= segs.len(),
    decreases segs.len(),
{
    if segs.len() > 0 {
        lemma_live_count_bounds(segs.drop_last());
    }
}

/// The `k`-th index of a single cylinder with `s` sides, before any
/// offsetting: vertex 0 is the bottom cap center, vertices `1 ..= s` the
/// bottom rim, vertex `s + 1` the top cap center and `s + 2 ..= 2 s + 1`
/// the top rim.  The first `3 s` entries wind the bottom cap to face
/// outward (downward), the next `3 s` the top cap to face upward, and the
/// final `6 s` split each side-wall quad into two counter-clockwise
/// triangles.
pub open spec fn cyl_index_spec(s: int, k: int) -> int
    recommends
        3 <= s,
        0 <= k < 12 * s,
{
    if k < 3 * s {
        let i = k / 3;
        let j = k % 3;
        if j == 0 {
            0
        } else if j == 1 {
            1 + ((i + 1) % s)
        } else {
            1 + i
        }
    } else if k < 6 * s {
        let i = (k - 3 * s) / 3;
        let j = (k - 3 * s) % 3;
        if j == 0 {
            s + 1
        } else if j == 1 {
            s + 2 + i
        } else {
            s + 2 + ((i + 1) % s)
        }
    } else {
        let i = (k - 6 * s) / 6;
        let j = (k - 6 * s) % 6;
        if j == 0 {
            1 + i
        } else if j == 1 {
            1 + ((i + 1) % s)
        } else if j == 2 {
            s + 2 + ((i + 1) % s)
        } else if j == 3 {
            1 + i
        } else if j == 4 {
            s + 2 + ((i + 1) % s)
        } else {
            s + 2 + i
        }
    }
}

/// Rim vertex `i` of `sides` around `base`: the base point plus the pipe
/// radius times the unit-circle point in the frame `(perp, binorm)`.
pub open spec fn rim_point_spec(
    base: Vec3,
    radius: i64,
    perp: Vec3,
    binorm: Vec3,
    i: int,
    sides: int,
) -> Vec3 {
    let a = clamp_spec(tdiv((TWO_PI_FX as int) * i, sides), 0, TWO_PI_FX as int - 1);
    let c = turn_cos_spec(a);
    let s = turn_sin_spec(a);
    crate::vec3::vadd_spec(
        base,
        crate::vec3::scale_spec(
            crate::vec3::vadd_spec(
                crate::vec3::scale_spec(perp, c),
                crate::vec3::scale_spec(binorm, s),
            ),
            radius as int,
        ),
    )
}

/// Both rims of a cylinder's vertex list sit at their exact fixed-point
/// circle points in the frame `(perp, binorm)`.
pub open spec fn cylinder_rims_ok(
    vs: Seq<PipeVertex>,
    seg: LineSegment,
    sides: int,
    perp: Vec3,
    binorm: Vec3,
) -> bool {
    &&& (forall|j: int|
        1 <= j <= sides ==> (#[trigger] vs[j]).position == rim_point_spec(
            seg.start,
            seg.radius,
            perp,
            binorm,
            j - 1,
            sides,
        ))
    &&& (forall|j: int|
        sides + 2 <= j <= 2 * sides + 1 ==> (#[trigger] vs[j]).position == rim_point_spec(
            seg.end,
            seg.radius,
            perp,
            binorm,
            j - sides - 2,
            sides,
        ))
}

/// The raw in-plane perpendicular the builder starts its frame from:
/// whichever of two axis swaps is far from parallel to `axis` - exactly
/// orthogonal to `axis` before any rescaling (see
/// `lemma_perp_raw_orthogonal`).
pub open spec fn perp_raw_spec(axis: Vec3) -> Vec3 {
    if axis.x > 524288 || axis.x < -524288 || axis.y > 524288 || axis.y < -524288 {
        Vec3 { x: axis.y, y: (-(axis.x as int)) as i64, z: 0 }
    } else {
        Vec3 { x: 0, y: axis.z, z: (-(axis.y as int)) as i64 }
    }
}

/// The raw perpendicular really is orthogonal to the axis.
pub proof fn lemma_perp_raw_orthogonal(axis: Vec3)
    requires
        crate::vec3::in_range(axis, 0x100000000000000),
    ensures
        crate::vec3::dot_wide_spec(perp_raw_spec(axis), axis) == 0,
{
    assert((axis.y as int) * (axis.x as int) + (-(axis.x as int)) * (axis.y as int) + 0 * (
    axis.z as int) == 0) by (nonlinear_arith);
    assert(0 * (axis.x as int) + (axis.z as int) * (axis.y as int) + (-(axis.y as int)) * (
    axis.z as int) == 0) by (nonlinear_arith);
}

/// The orthonormal-ish frame a cylinder is built in: `axis` is the
/// rescaled direction of the segment, `perp` the rescaled raw
/// perpendicular of `axis`, and `binorm` the rescaled cross product of
/// the two (or its fallback when that cross product fails its length
/// check).  Each rescale divides by the unique integer square root of
/// the squared norm, so the frame is a function of the segment.
pub open spec fn frame_ok(seg: LineSegment, axis: Vec3, perp: Vec3, binorm: Vec3) -> bool {
    &&& nearly_unit(axis)
    &&& nearly_unit(perp)
    &&& nearly_unit(binorm)
    &&& (exists|k: nat, n: int|
        {
            &&& 1 <= n
            &&& n * n <= crate::vec3::norm_sq_spec(
                crate::vec3::doubled_spec(crate::vec3::vsub_spec(seg.end, seg.start), k),
            )
            &&& crate::vec3::norm_sq_spec(
                crate::vec3::doubled_spec(crate::vec3::vsub_spec(seg.end, seg.start), k),
            ) < (n + 1) * (n + 1)
            &&& #[trigger] crate::vec3::scale_div_spec(
                crate::vec3::doubled_spec(crate::vec3::vsub_spec(seg.end, seg.start), k),
                n,
            ) == axis
        })
    &&& (exists|n1: int|
        {
            &&& 1 <= n1
            &&& n1 * n1 <= crate::vec3::norm_sq_spec(perp_raw_spec(axis))
            &&& crate::vec3::norm_sq_spec(perp_raw_spec(axis)) < (n1 + 1) * (n1 + 1)
            &&& #[trigger] crate::vec3::scale_div_spec(perp_raw_spec(axis), n1) == perp
        })
    &&& (binorm == (Vec3 { x: 0, y: FX_ONE, z: 0 }) || (exists|n2: int|
        {
            &&& 1 <= n2
            &&& n2 * n2 <= crate::vec3::norm_sq_spec(
                crate::vec3::clamp_vec_spec(cross_spec(axis, perp), 0x10000000000),
            )
            &&& crate::vec3::norm_sq_spec(
                crate::vec3::clamp_vec_spec(cross_spec(axis, perp), 0x10000000000),
            ) < (n2 + 1) * (n2 + 1)
            &&& #[trigger] crate::vec3::scale_div_spec(
                crate::vec3::clamp_vec_spec(cross_spec(axis, perp), 0x10000000000),
                n2,
            ) == binorm
        }))
}

/// The rescaled perpendicular of a frame is orthogonal to its axis up to
/// truncation: the raw perpendicular is exactly orthogonal, and the
/// rescale loses less than one step per component, so the dot product is
/// at most three fraction steps in magnitude.
pub proof fn lemma_frame_perp_orthogonal(seg: LineSegment, axis: Vec3, perp: Vec3, binorm: Vec3)
    requires
        frame_ok(seg, axis, perp, binorm),
    ensures
        -3 * (FX_ONE as int) <= crate::vec3::dot_wide_spec(perp, axis) <= 3 * (FX_ONE as int),
{
    let s = FX_ONE as int;
    let p0 = perp_raw_spec(axis);
    let n1 = choose|n: int|
        {
            &&& 1 <= n
            &&& n * n <= norm_sq_spec(p0)
            &&& norm_sq_spec(p0) < (n + 1) * (n + 1)
            &&& #[trigger] crate::vec3::scale_div_spec(p0, n) == perp
        };
    assert(crate::vec3::scale_div_spec(p0, n1) == perp);
    lemma_perp_raw_orthogonal(axis);
    crate::fx::lemma_tdiv_mul_err((p0.x as int) * s, n1);
    crate::fx::lemma_tdiv_mul_err((p0.y as int) * s, n1);
    crate::fx::lemma_tdiv_mul_err((p0.z as int) * s, n1);
    let px = perp.x as int;
    let py = perp.y as int;
    let pz = perp.z as int;
    let ax = axis.x as int;
    let ay = axis.y as int;
    let az = axis.z as int;
    let ex = px * n1 - (p0.x as int) * s;
    let ey = py * n1 - (p0.y as int) * s;
    let ez = pz * n1 - (p0.z as int) * s;
    crate::fx::lemma_mul_abs_bound(ex, ax, n1 - 1, s);
    crate::fx::lemma_mul_abs_bound(ey, ay, n1 - 1, s);
    crate::fx::lemma_mul_abs_bound(ez, az, n1 - 1, s);
    let dpa = crate::vec3::dot_wide_spec(perp, axis);
    assert(dpa * n1 == (px * ax) * n1 + (py * ay) * n1 + (pz * az) * n1) by (nonlinear_arith)
        requires
            dpa == px * ax + py * ay + pz * az,
    ;
    assert((px * ax) * n1 == ((p0.x as int) * s) * ax + ex * ax) by (nonlinear_arith)
        requires
            px * n1 == (p0.x as int) * s + ex,
    ;
    assert((py * ay) * n1 == ((p0.y as int) * s) * ay + ey * ay) by (nonlinear_arith)
        requires
            py * n1 == (p0.y as int) * s + ey,
    ;
    assert((pz * az) * n1 == ((p0.z as int) * s) * az + ez * az) by (nonlinear_arith)
        requires
            pz * n1 == (p0.z as int) * s + ez,
    ;
    assert(((p0.x as int) * s) * ax == s * ((p0.x as int) * ax)) by (nonlinear_arith);
    assert(((p0.y as int) * s) * ay == s * ((p0.y as int) * ay)) by (nonlinear_arith);
    assert(((p0.z as int) * s) * az == s * ((p0.z as int) * az)) by (nonlinear_arith);
    assert(s * ((p0.x as int) * ax) + s * ((p0.y as int) * ay) + s * ((p0.z as int) * az) == 0);
    assert(-3 * (n1 - 1) * s <= dpa * n1 <= 3 * (n1 - 1) * s) by (nonlinear_arith)
        requires
            dpa * n1 == ex * ax + ey * ay + ez * az,
            -((n1 - 1) * s) <= ex * ax <= (n1 - 1) * s,
            -((n1 - 1) * s) <= ey * ay <= (n1 - 1) * s,
            -((n1 - 1) * s) <= ez * az <= (n1 - 1) * s,
    ;
    assert(-3 * s <= dpa <= 3 * s) by (nonlinear_arith)
        requires
            -3 * (n1 - 1) * s <= dpa * n1 <= 3 * (n1 - 1) * s,
            n1 >= 1,
            s == 1048576,
    ;
}

/// When the binormal is the rescaled cross product (the only case a
/// cross product of at least an eighth of a unit allows), it too is
/// orthogonal to the axis up to truncation: the raw cross product is
/// exactly orthogonal, and each of the two rescales loses less than one
/// step per component.
pub proof fn lemma_frame_binorm_orthogonal(seg: LineSegment, axis: Vec3, perp: Vec3, binorm: Vec3)
    requires
        frame_ok(seg, axis, perp, binorm),
        crate::vec3::rescaled_of(
            crate::vec3::clamp_vec_spec(cross_spec(axis, perp), 0x10000000000),
            binorm,
        ),
        crate::vec3::norm_sq_spec(
            crate::vec3::clamp_vec_spec(cross_spec(axis, perp), 0x10000000000),
        ) >= 17179869184,
    ensures
        -27 * (FX_ONE as int) <= crate::vec3::dot_wide_spec(binorm, axis) <= 27 * (
        FX_ONE as int),
{
    let s = FX_ONE as int;
    let ax = axis.x as int;
    let ay = axis.y as int;
    let az = axis.z as int;
    let px = perp.x as int;
    let py = perp.y as int;
    let pz = perp.z as int;
    let rx = ay * pz - az * py;
    let ry = az * px - ax * pz;
    let rz = ax * py - ay * px;
    crate::fx::lemma_mul_abs_bound(ay, pz, s, s);
    crate::fx::lemma_mul_abs_bound(az, py, s, s);
    crate::fx::lemma_mul_abs_bound(az, px, s, s);
    crate::fx::lemma_mul_abs_bound(ax, pz, s, s);
    crate::fx::lemma_mul_abs_bound(ax, py, s, s);
    crate::fx::lemma_mul_abs_bound(ay, px, s, s);
    crate::vec3::lemma_fx_one_sq();
    crate::fx::lemma_tdiv_bounds(rx, s, 2 * (FX_ONE_SQ as int));
    crate::fx::lemma_tdiv_bounds(ry, s, 2 * (FX_ONE_SQ as int));
    crate::fx::lemma_tdiv_bounds(rz, s, 2 * (FX_ONE_SQ as int));
    assert(2 * (FX_ONE_SQ as int) / s == 2 * s);
    let ch_raw = cross_spec(axis, perp);
    let ch = crate::vec3::clamp_vec_spec(ch_raw, 0x10000000000);
    assert(ch == ch_raw);
    let cx = ch.x as int;
    let cy = ch.y as int;
    let cz = ch.z as int;
    assert(rx * ax + ry * ay + rz * az == 0) by (nonlinear_arith)
        requires
            rx == ay * pz - az * py,
            ry == az * px - ax * pz,
            rz == ax * py - ay * px,
    ;
    crate::fx::lemma_tdiv_mul_err(rx, s);
    crate::fx::lemma_tdiv_mul_err(ry, s);
    crate::fx::lemma_tdiv_mul_err(rz, s);
    let fx_e = cx * s - rx;
    let fy_e = cy * s - ry;
    let fz_e = cz * s - rz;
    crate::fx::lemma_mul_abs_bound(fx_e, ax, s - 1, s);
    crate::fx::lemma_mul_abs_bound(fy_e, ay, s - 1, s);
    crate::fx::lemma_mul_abs_bound(fz_e, az, s - 1, s);
    let dca = crate::vec3::dot_wide_spec(ch, axis);
    assert(dca * s == (cx * ax) * s + (cy * ay) * s + (cz * az) * s) by (nonlinear_arith)
        requires
            dca == cx * ax + cy * ay + cz * az,
    ;
    assert((cx * ax) * s == rx * ax + fx_e * ax) by (nonlinear_arith)
        requires
            cx * s == rx + fx_e,
    ;
    assert((cy * ay) * s == ry * ay + fy_e * ay) by (nonlinear_arith)
        requires
            cy * s == ry + fy_e,
    ;
    assert((cz * az) * s == rz * az + fz_e * az) by (nonlinear_arith)
        requires
            cz * s == rz + fz_e,
    ;
    assert(-3 * s <= dca <= 3 * s) by (nonlinear_arith)
        requires
            -3 * (s - 1) * s <= dca * s <= 3 * (s - 1) * s,
            s == 1048576,
    ;
    let n2 = choose|n: int|
        {
            &&& 1 <= n
            &&& n * n <= norm_sq_spec(ch)
            &&& norm_sq_spec(ch) < (n + 1) * (n + 1)
            &&& #[trigger] crate::vec3::scale_div_spec(ch, n) == binorm
        };
    assert(crate::vec3::scale_div_spec(ch, n2) == binorm);
    assert(n2 >= 131072) by (nonlinear_arith)
        requires
            (n2 + 1) * (n2 + 1) > 17179869184,
            n2 >= 0,
    ;
    crate::fx::lemma_tdiv_mul_err(cx * s, n2);
    crate::fx::lemma_tdiv_mul_err(cy * s, n2);
    crate::fx::lemma_tdiv_mul_err(cz * s, n2);
    let bx = binorm.x as int;
    let by = binorm.y as int;
    let bz = binorm.z as int;
    let ex = bx * n2 - cx * s;
    let ey = by * n2 - cy * s;
    let ez = bz * n2 - cz * s;
    crate::fx::lemma_mul_abs_bound(ex, ax, n2 - 1, s);
    crate::fx::lemma_mul_abs_bound(ey, ay, n2 - 1, s);
    crate::fx::lemma_mul_abs_bound(ez, az, n2 - 1, s);
    let dba = crate::vec3::dot_wide_spec(binorm, axis);
    assert(dba * n2 == (bx * ax) * n2 + (by * ay) * n2 + (bz * az) * n2) by (nonlinear_arith)
        requires
            dba == bx * ax + by * ay + bz * az,
    ;
    assert((bx * ax) * n2 == (cx * s) * ax + ex * ax) by (nonlinear_arith)
        requires
            bx * n2 == cx * s + ex,
    ;
    assert((by * ay) * n2 == (cy * s) * ay + ey * ay) by (nonlinear_arith)
        requires
            by * n2 == cy * s + ey,
    ;
    assert((bz * az) * n2 == (cz * s) * az + ez * az) by (nonlinear_arith)
        requires
            bz * n2 == cz * s + ez,
    ;
    assert((cx * s) * ax == s * (cx * ax)) by (nonlinear_arith);
    assert((cy * s) * ay == s * (cy * ay)) by (nonlinear_arith);
    assert((cz * s) * az == s * (cz * az)) by (nonlinear_arith);
    assert(s * (cx * ax) + s * (cy * ay) + s * (cz * az) == s * dca) by (nonlinear_arith)
        requires
            dca == cx * ax + cy * ay + cz * az,
    ;
    assert(-27 * s <= dba <= 27 * s) by (nonlinear_arith)
        requires
            s * -(3 * s) - 3 * (n2 - 1) * s <= dba * n2 <= s * (3 * s) + 3 * (n2 - 1) * s,
            n2 >= 131072,
            s == 1048576,
    ;
}

/// When the binormal is the rescaled cross product (the only case a
/// cross product of at least an eighth of a unit allows), it too is
/// orthogonal to the perpendicular up to truncation, by the same
/// error-propagation argument as for the axis.
pub proof fn lemma_frame_binorm_perp_orthogonal(seg: LineSegment, axis: Vec3, perp: Vec3, binorm: Vec3)
    requires
        frame_ok(seg, axis, perp, binorm),
        crate::vec3::rescaled_of(
            crate::vec3::clamp_vec_spec(cross_spec(axis, perp), 0x10000000000),
            binorm,
        ),
        crate::vec3::norm_sq_spec(
            crate::vec3::clamp_vec_spec(cross_spec(axis, perp), 0x10000000000),
        ) >= 17179869184,
    ensures
        -27 * (FX_ONE as int) <= crate::vec3::dot_wide_spec(binorm, perp) <= 27 * (
        FX_ONE as int),
{
    let s = FX_ONE as int;
    let ax = axis.x as int;
    let ay = axis.y as int;
    let az = axis.z as int;
    let px = perp.x as int;
    let py = perp.y as int;
    let pz = perp.z as int;
    let rx = ay * pz - az * py;
    let ry = az * px - ax * pz;
    let rz = ax * py - ay * px;
    crate::fx::lemma_mul_abs_bound(ay, pz, s, s);
    crate::fx::lemma_mul_abs_bound(az, py, s, s);
    crate::fx::lemma_mul_abs_bound(az, px, s, s);
    crate::fx::lemma_mul_abs_bound(ax, pz, s, s);
    crate::fx::lemma_mul_abs_bound(ax, py, s, s);
    crate::fx::lemma_mul_abs_bound(ay, px, s, s);
    crate::vec3::lemma_fx_one_sq();
    crate::fx::lemma_tdiv_bounds(rx, s, 2 * (FX_ONE_SQ as int));
    crate::fx::lemma_tdiv_bounds(ry, s, 2 * (FX_ONE_SQ as int));
    crate::fx::lemma_tdiv_bounds(rz, s, 2 * (FX_ONE_SQ as int));
    assert(2 * (FX_ONE_SQ as int) / s == 2 * s);
    let ch_raw = cross_spec(axis, perp);
    let ch = crate::vec3::clamp_vec_spec(ch_raw, 0x10000000000);
    assert(ch == ch_raw);
    let cx = ch.x as int;
    let cy = ch.y as int;
    let cz = ch.z as int;
    assert(rx * px + ry * py + rz * pz == 0) by (nonlinear_arith)
        requires
            rx == ay * pz - az * py,
            ry == az * px - ax * pz,
            rz == ax * py - ay * px,
    ;
    crate::fx::lemma_tdiv_mul_err(rx, s);
    crate::fx::lemma_tdiv_mul_err(ry, s);
    crate::fx::lemma_tdiv_mul_err(rz, s);
    let fx_e = cx * s - rx;
    let fy_e = cy * s - ry;
    let fz_e = cz * s - rz;
    crate::fx::lemma_mul_abs_bound(fx_e, px, s - 1, s);
    crate::fx::lemma_mul_abs_bound(fy_e, py, s - 1, s);
    crate::fx::lemma_mul_abs_bound(fz_e, pz, s - 1, s);
    let dca = crate::vec3::dot_wide_spec(ch, perp);
    assert(dca * s == (cx * px) * s + (cy * py) * s + (cz * pz) * s) by (nonlinear_arith)
        requires
            dca == cx * px + cy * py + cz * pz,
    ;
    assert((cx * px) * s == rx * px + fx_e * px) by (nonlinear_arith)
        requires
            cx * s == rx + fx_e,
    ;
    assert((cy * py) * s == ry * py + fy_e * py) by (nonlinear_arith)
        requires
            cy * s == ry + fy_e,
    ;
    assert((cz * pz) * s == rz * pz + fz_e * pz) by (nonlinear_arith)
        requires
            cz * s == rz + fz_e,
    ;
    assert(-3 * s <= dca <= 3 * s) by (nonlinear_arith)
        requires
            -3 * (s - 1) * s <= dca * s <= 3 * (s - 1) * s,
            s == 1048576,
    ;
    let n2 = choose|n: int|
        {
            &&& 1 <= n
            &&& n * n <= norm_sq_spec(ch)
            &&& norm_sq_spec(ch) < (n + 1) * (n + 1)
            &&& #[trigger] crate::vec3::scale_div_spec(ch, n) == binorm
        };
    assert(crate::vec3::scale_div_spec(ch, n2) == binorm);
    assert(n2 >= 131072) by (nonlinear_arith)
        requires
            (n2 + 1) * (n2 + 1) > 17179869184,
            n2 >= 0,
    ;
    crate::fx::lemma_tdiv_mul_err(cx * s, n2);
    crate::fx::lemma_tdiv_mul_err(cy * s, n2);
    crate::fx::lemma_tdiv_mul_err(cz * s, n2);
    let bx = binorm.x as int;
    let by = binorm.y as int;
    let bz = binorm.z as int;
    let ex = bx * n2 - cx * s;
    let ey = by * n2 - cy * s;
    let ez = bz * n2 - cz * s;
    crate::fx::lemma_mul_abs_bound(ex, px, n2 - 1, s);
    crate::fx::lemma_mul_abs_bound(ey, py, n2 - 1, s);
    crate::fx::lemma_mul_abs_bound(ez, pz, n2 - 1, s);
    let dba = crate::vec3::dot_wide_spec(binorm, perp);
    assert(dba * n2 == (bx * px) * n2 + (by * py) * n2 + (bz * pz) * n2) by (nonlinear_arith)
        requires
            dba == bx * px + by * py + bz * pz,
    ;
    assert((bx * px) * n2 == (cx * s) * px + ex * px) by (nonlinear_arith)
        requires
            bx * n2 == cx * s + ex,
    ;
    assert((by * py) * n2 == (cy * s) * py + ey * py) by (nonlinear_arith)
        requires
            by * n2 == cy * s + ey,
    ;
    assert((bz * pz) * n2 == (cz * s) * pz + ez * pz) by (nonlinear_arith)
        requires
            bz * n2 == cz * s + ez,
    ;
    assert((cx * s) * px == s * (cx * px)) by (nonlinear_arith);
    assert((cy * s) * py == s * (cy * py)) by (nonlinear_arith);
    assert((cz * s) * pz == s * (cz * pz)) by (nonlinear_arith);
    assert(s * (cx * px) + s * (cy * py) + s * (cz * pz) == s * dca) by (nonlinear_arith)
        requires
            dca == cx * px + cy * py + cz * pz,
    ;
    assert(-27 * s <= dba <= 27 * s) by (nonlinear_arith)
        requires
            s * -(3 * s) - 3 * (n2 - 1) * s <= dba * n2 <= s * (3 * s) + 3 * (n2 - 1) * s,
            n2 >= 131072,
            s == 1048576,
    ;
}

/// The frame is right-handed about its axis: the cross product of the
/// rescaled perpendicular and binormal points along the axis, not
/// against it.  The raw cross products agree by the cyclic triple
/// product identity, and all truncation losses together stay far below
/// the cross product's guaranteed length.
pub proof fn lemma_frame_handedness(seg: LineSegment, axis: Vec3, perp: Vec3, binorm: Vec3)
    requires
        frame_ok(seg, axis, perp, binorm),
        crate::vec3::rescaled_of(
            crate::vec3::clamp_vec_spec(cross_spec(axis, perp), 0x10000000000),
            binorm,
        ),
        crate::vec3::norm_sq_spec(
            crate::vec3::clamp_vec_spec(cross_spec(axis, perp), 0x10000000000),
        ) >= 17179869184,
    ensures
        crate::vec3::dot_wide_spec(cross_spec(perp, binorm), axis) > 0,
{
    let s = FX_ONE as int;
    crate::vec3::lemma_fx_one_sq();
    assert(s * s == 1099511627776);
    assert(s * s * s == 1152921504606846976) by (nonlinear_arith)
        requires
            s == 1048576,
    ;
    let ax = axis.x as int;
    let ay = axis.y as int;
    let az = axis.z as int;
    let px = perp.x as int;
    let py = perp.y as int;
    let pz = perp.z as int;
    let rx = ay * pz - az * py;
    let ry = az * px - ax * pz;
    let rz = ax * py - ay * px;
    crate::fx::lemma_mul_abs_bound(ay, pz, s, s);
    crate::fx::lemma_mul_abs_bound(az, py, s, s);
    crate::fx::lemma_mul_abs_bound(az, px, s, s);
    crate::fx::lemma_mul_abs_bound(ax, pz, s, s);
    crate::fx::lemma_mul_abs_bound(ax, py, s, s);
    crate::fx::lemma_mul_abs_bound(ay, px, s, s);
    crate::fx::lemma_tdiv_bounds(rx, s, 2199023255552);
    crate::fx::lemma_tdiv_bounds(ry, s, 2199023255552);
    crate::fx::lemma_tdiv_bounds(rz, s, 2199023255552);
    let ch_raw = cross_spec(axis, perp);
    let ch = crate::vec3::clamp_vec_spec(ch_raw, 0x10000000000);
    assert(ch == ch_raw);
    let cx = ch.x as int;
    let cy = ch.y as int;
    let cz = ch.z as int;
    crate::fx::lemma_tdiv_mul_err(rx, s);
    crate::fx::lemma_tdiv_mul_err(ry, s);
    crate::fx::lemma_tdiv_mul_err(rz, s);
    let fx_e = cx * s - rx;
    let fy_e = cy * s - ry;
    let fz_e = cz * s - rz;
    let n2 = choose|n: int|
        {
            &&& 1 <= n
            &&& n * n <= norm_sq_spec(ch)
            &&& norm_sq_spec(ch) < (n + 1) * (n + 1)
            &&& #[trigger] crate::vec3::scale_div_spec(ch, n) == binorm
        };
    assert(crate::vec3::scale_div_spec(ch, n2) == binorm);
    assert(cx * cx <= 4398046511104) by (nonlinear_arith)
        requires
            -2097152 <= cx <= 2097152,
    ;
    assert(cy * cy <= 4398046511104) by (nonlinear_arith)
        requires
            -2097152 <= cy <= 2097152,
    ;
    assert(cz * cz <= 4398046511104) by (nonlinear_arith)
        requires
            -2097152 <= cz <= 2097152,
    ;
    assert(n2 <= 4194304) by (nonlinear_arith)
        requires
            n2 * n2 <= 13194139533312,
            n2 >= 0,
    ;
    crate::fx::lemma_tdiv_mul_err(cx * s, n2);
    crate::fx::lemma_tdiv_mul_err(cy * s, n2);
    crate::fx::lemma_tdiv_mul_err(cz * s, n2);
    let bx = binorm.x as int;
    let by = binorm.y as int;
    let bz = binorm.z as int;
    let ex = bx * n2 - cx * s;
    let ey = by * n2 - cy * s;
    let ez = bz * n2 - cz * s;
    // The raw cross product dotted with the binormal, scaled by `n2`,
    // equals the sum of the raw squares plus small error terms.
    let t = rx * bx + ry * by + rz * bz;
    assert((rx * bx) * n2 == rx * rx + rx * (fx_e + ex)) by (nonlinear_arith)
        requires
            bx * n2 == rx + fx_e + ex,
    ;
    assert((ry * by) * n2 == ry * ry + ry * (fy_e + ey)) by (nonlinear_arith)
        requires
            by * n2 == ry + fy_e + ey,
    ;
    assert((rz * bz) * n2 == rz * rz + rz * (fz_e + ez)) by (nonlinear_arith)
        requires
            bz * n2 == rz + fz_e + ez,
    ;
    assert(t * n2 == (rx * bx) * n2 + (ry * by) * n2 + (rz * bz) * n2) by (nonlinear_arith)
        requires
            t == rx * bx + ry * by + rz * bz,
    ;
    assert(rx * rx >= cx * cx * 1099511627776 - 4611686018427387904) by (nonlinear_arith)
        requires
            rx == cx * 1048576 - fx_e,
            -1048575 <= fx_e <= 1048575,
            -2097152 <= cx <= 2097152,
    ;
    assert(ry * ry >= cy * cy * 1099511627776 - 4611686018427387904) by (nonlinear_arith)
        requires
            ry == cy * 1048576 - fy_e,
            -1048575 <= fy_e <= 1048575,
            -2097152 <= cy <= 2097152,
    ;
    assert(rz * rz >= cz * cz * 1099511627776 - 4611686018427387904) by (nonlinear_arith)
        requires
            rz == cz * 1048576 - fz_e,
            -1048575 <= fz_e <= 1048575,
            -2097152 <= cz <= 2097152,
    ;
    assert(cx * cx * 1099511627776 + cy * cy * 1099511627776 + cz * cz * 1099511627776
        >= 18889465931478580854784) by (nonlinear_arith)
        requires
            cx * cx + cy * cy + cz * cz >= 17179869184,
    ;
    crate::fx::lemma_mul_abs_bound(rx, fx_e + ex, 2199023255552, 5242880);
    crate::fx::lemma_mul_abs_bound(ry, fy_e + ey, 2199023255552, 5242880);
    crate::fx::lemma_mul_abs_bound(rz, fz_e + ez, 2199023255552, 5242880);
    assert(t >= 1099511627776000) by (nonlinear_arith)
        requires
            t * n2 >= 18889465931478580854784 - 3 * 4611686018427387904 - 3
                * 11529215046068469760,
            1 <= n2 <= 4194304,
    ;
    // The cyclic triple product identity carries the sum over to the
    // stated cross product.
    let wx = py * bz - pz * by;
    let wy = pz * bx - px * bz;
    let wz = px * by - py * bx;
    assert(t == ay * pz * bx - az * py * bx + az * px * by - ax * pz * by + ax * py * bz - ay * px
        * bz) by (nonlinear_arith)
        requires
            t == rx * bx + ry * by + rz * bz,
            rx == ay * pz - az * py,
            ry == az * px - ax * pz,
            rz == ax * py - ay * px,
    ;
    assert(wx * ax == ax * py * bz - ax * pz * by) by (nonlinear_arith)
        requires
            wx == py * bz - pz * by,
    ;
    assert(wy * ay == ay * pz * bx - ay * px * bz) by (nonlinear_arith)
        requires
            wy == pz * bx - px * bz,
    ;
    assert(wz * az == az * px * by - az * py * bx) by (nonlinear_arith)
        requires
            wz == px * by - py * bx,
    ;
    crate::fx::lemma_mul_abs_bound(py, bz, s, s);
    crate::fx::lemma_mul_abs_bound(pz, by, s, s);
    crate::fx::lemma_mul_abs_bound(pz, bx, s, s);
    crate::fx::lemma_mul_abs_bound(px, bz, s, s);
    crate::fx::lemma_mul_abs_bound(px, by, s, s);
    crate::fx::lemma_mul_abs_bound(py, bx, s, s);
    crate::fx::lemma_tdiv_mul_err(wx, s);
    crate::fx::lemma_tdiv_mul_err(wy, s);
    crate::fx::lemma_tdiv_mul_err(wz, s);
    let g = cross_spec(perp, binorm);
    let gx = g.x as int;
    let gy = g.y as int;
    let gz = g.z as int;
    let hx = gx * s - wx;
    let hy = gy * s - wy;
    let hz = gz * s - wz;
    crate::fx::lemma_mul_abs_bound(hx, ax, 1048575, 1048576);
    crate::fx::lemma_mul_abs_bound(hy, ay, 1048575, 1048576);
    crate::fx::lemma_mul_abs_bound(hz, az, 1048575, 1048576);
    let dga = crate::vec3::dot_wide_spec(g, axis);
    assert(dga * s == (gx * ax) * s + (gy * ay) * s + (gz * az) * s) by (nonlinear_arith)
        requires
            dga == gx * ax + gy * ay + gz * az,
    ;
    assert((gx * ax) * s == wx * ax + hx * ax) by (nonlinear_arith)
        requires
            gx * s == wx + hx,
    ;
    assert((gy * ay) * s == wy * ay + hy * ay) by (nonlinear_arith)
        requires
            gy * s == wy + hy,
    ;
    assert((gz * az) * s == wz * az + hz * az) by (nonlinear_arith)
        requires
            gz * s == wz + hz,
    ;
    assert(dga > 0) by (nonlinear_arith)
        requires
            dga * s >= 1099511627776000 - 3298531737600,
            s == 1048576,
    ;
}

/// Everything one live segment's cylinder vertices satisfy: the exact
/// count, the cap centers at the endpoints, the segment's color on every
/// vertex, and both rims at their exact circle points in a frame built
/// from the segment.
pub open spec fn cylinder_vertices_ok(vs: Seq<PipeVertex>, seg: LineSegment, sides: int) -> bool {
    &&& vs.len() == 2 * sides + 2
    &&& vs[0].position == seg.start
    &&& vs[sides + 1].position == seg.end
    &&& (forall|j: int| 0 <= j < vs.len() ==> (#[trigger] vs[j]).color == seg.color)
    &&& (exists|axis: Vec3, perp: Vec3, binorm: Vec3|
        {
            &&& #[trigger] frame_ok(seg, axis, perp, binorm)
            &&& cylinder_rims_ok(vs, seg, sides, perp, binorm)
        })
}

/// Everything one live segment's cylinder satisfies: its vertices as
/// `cylinder_vertices_ok`, and the fixed counter-clockwise index pattern.
pub open spec fn cylinder_ok(
    vs: Seq<PipeVertex>,
    is: Seq<u32>,
    seg: LineSegment,
    sides: int,
) -> bool {
    &&& cylinder_vertices_ok(vs, seg, sides)
    &&& is.len() == 12 * sides
    &&& (forall|k: int| 0 <= k < is.len() ==> (#[trigger] is[k]) as int == cyl_index_spec(sides, k))
    &&& (forall|k: int| 0 <= k < is.len() ==> ((#[trigger] is[k]) as int) < 2 * sides + 2)
}

/// Builds the cylinder mesh of one segment.  A degenerate segment yields
/// two empty lists; any other segment yields exactly `2 * sides + 2`
/// vertices carrying the segment's color, with the cap centers at the
/// segment's endpoints, and exactly `12 * sides` indices following the
/// fixed counter-clockwise winding of `cyl_index_spec`.
pub fn create_cylinder_for_line(segment: &LineSegment, sides: u32) -> (out: (
    Vec<PipeVertex>,
    Vec<u32>,
))
    requires
        3 <= sides <= 512,
        seg_in_bounds(*segment),
    ensures
        seg_degenerate(*segment) ==> out.0@.len() == 0 && out.1@.len() == 0,
        !seg_degenerate(*segment) ==> cylinder_ok(out.0@, out.1@, *segment, sides as int),
{
    let d = vsub(segment.end, segment.start);
    if (d.x == 0 && d.y == 0 && d.z == 0) || segment.radius <= 0 {
        let vertices: Vec<PipeVertex> = Vec::new();
        let indices: Vec<u32> = Vec::new();
        return (vertices, indices);
    }
    proof {
        assert(!seg_degenerate(*segment));
        assert((d.x as int) * (d.x as int) >= 0) by (nonlinear_arith);
        assert((d.y as int) * (d.y as int) >= 0) by (nonlinear_arith);
        assert((d.z as int) * (d.z as int) >= 0) by (nonlinear_arith);
        if d.x != 0 {
            assert((d.x as int) * (d.x as int) >= 1) by (nonlinear_arith)
                requires
                    d.x != 0,
            ;
        } else if d.y != 0 {
            assert((d.y as int) * (d.y as int) >= 1) by (nonlinear_arith)
                requires
                    d.y != 0,
            ;
        } else {
            assert((d.z as int) * (d.z as int) >= 1) by (nonlinear_arith)
                requires
                    d.z != 0,
            ;
        }
        assert(norm_sq_spec(d) >= 1);
    }
    let axis = direction_or(d, unit_z());
    let half: i64 = FX_ONE / 2;
    let perp_raw: Vec3 = if axis.x > half || axis.x < -half || axis.y > half || axis.y < -half {
        Vec3 { x: axis.y, y: -axis.x, z: 0 }
    } else {
        Vec3 { x: 0, y: axis.z, z: -axis.y }
    };
    proof {
        assert(perp_raw == perp_raw_spec(axis));
        assert((-(axis.x as int)) * (-(axis.x as int)) == (axis.x as int) * (axis.x as int))
            by (nonlinear_arith);
        assert((-(axis.y as int)) * (-(axis.y as int)) == (axis.y as int) * (axis.y as int))
            by (nonlinear_arith);
        assert(0int * 0int == 0int) by (nonlinear_arith);
        if axis.x > half || axis.x < -half || axis.y > half || axis.y < -half {
            if axis.x > 524288 || axis.x < -524288 {
                assert((axis.x as int) * (axis.x as int) > 274877906944) by (nonlinear_arith)
                    requires
                        axis.x > 524288 || axis.x < -524288,
                ;
            } else {
                assert((axis.y as int) * (axis.y as int) > 274877906944) by (nonlinear_arith)
                    requires
                        axis.y > 524288 || axis.y < -524288,
                ;
            }
            assert((axis.y as int) * (axis.y as int) >= 0) by (nonlinear_arith);
            assert((axis.x as int) * (axis.x as int) >= 0) by (nonlinear_arith);
        } else {
            assert((axis.x as int) * (axis.x as int) <= 274877906944) by (nonlinear_arith)
                requires
                    -524288 <= axis.x <= 524288,
            ;
            assert((axis.y as int) * (axis.y as int) <= 274877906944) by (nonlinear_arith)
                requires
                    -524288 <= axis.y <= 524288,
            ;
        }
        assert(norm_sq_spec(perp_raw) >= 17179869184);
    }
    let perp = normalize_or(perp_raw, unit_x());
    let binormal = normalize_or(clamp_vec(cross(axis, perp), 0x10000000000), unit_y());
    let vertices = cylinder_vertices(segment, sides, perp, binormal);
    let indices = cylinder_indices(sides);
    proof {
        let dd = crate::vec3::vsub_spec(segment.end, segment.start);
        let (k0, n0) = choose|k: nat, n: int|
            {
                &&& 1 <= n
                &&& n * n <= norm_sq_spec(crate::vec3::doubled_spec(dd, k))
                &&& norm_sq_spec(crate::vec3::doubled_spec(dd, k)) < (n + 1) * (n + 1)
                &&& norm_sq_spec(crate::vec3::doubled_spec(dd, k)) >= 68719476736
                &&& #[trigger] crate::vec3::scale_div_spec(crate::vec3::doubled_spec(dd, k), n)
                    == axis
            };
        assert(crate::vec3::scale_div_spec(crate::vec3::doubled_spec(dd, k0), n0) == axis);
        assert(frame_ok(*segment, axis, perp, binormal));
        assert(cylinder_ok(vertices@, indices@, *segment, sides as int)) by {
            assert(frame_ok(*segment, axis, perp, binormal) && cylinder_rims_ok(
                vertices@,
                *segment,
                sides as int,
                perp,
                binormal,
            ));
        }
    }
    (vertices, indices)
}

/// The `2 * sides + 2` vertices of one cylinder: the two cap centers at
/// the segment's endpoints and both rims of circle points in the frame
/// `(perp, binormal)`, all carrying the segment's color.
fn cylinder_vertices(segment: &LineSegment, sides: u32, perp: Vec3, binormal: Vec3) -> (vs: Vec<
    PipeVertex,
>)
    requires
        3 <= sides <= 512,
        seg_in_bounds(*segment),
        0 < segment.radius,
        nearly_unit(perp),
        nearly_unit(binormal),
    ensures
        vs@.len() == 2 * sides + 2,
        vs@[0].position == segment.start,
        vs@[sides as int + 1].position == segment.end,
        forall|j: int| 0 <= j < vs@.len() ==> (#[trigger] vs@[j]).color == segment.color,
        cylinder_rims_ok(vs@, *segment, sides as int, perp, binormal),
{
    let mut vertices: Vec<PipeVertex> = Vec::new();
    // Bottom cap: center, then the rim.
    vertices.push(PipeVertex { position: segment.start, color: segment.color });
    let mut i: u32 = 0;
    while i < sides
        invariant
            3 <= sides <= 512,
            seg_in_bounds(*segment),
            0 < segment.radius,
            nearly_unit(perp),
            nearly_unit(binormal),
            i <= sides,
            vertices@.len() == i + 1,
            vertices@[0].position == segment.start,
            forall|j: int| 0 <= j < vertices@.len() ==> (#[trigger] vertices@[j]).color
                == segment.color,
            forall|j: int| 1 <= j <= i ==> (#[trigger] vertices@[j]).position == rim_point_spec(
                segment.start,
                segment.radius,
                perp,
                binormal,
                j - 1,
                sides as int,
            ),
        decreases sides - i,
    {
        let (c, s) = circle_point(i, sides);
        proof {
            lemma_scale_range(perp, c as int, FX_ONE as int, FX_ONE as int);
            lemma_scale_range(binormal, s as int, FX_ONE as int, FX_ONE as int);
            lemma_scale_range(
                crate::vec3::vadd_spec(
                    crate::vec3::scale_spec(perp, c as int),
                    crate::vec3::scale_spec(binormal, s as int),
                ),
                segment.radius as int,
                2 * (FX_ONE as int) + 2,
                SEG_RADIUS_MAX_FX as int,
            );
        }
        let evec = vadd(scale(perp, c), scale(binormal, s));
        let off = scale(evec, segment.radius);
        let pos = vadd(segment.start, off);
        vertices.push(PipeVertex { position: pos, color: segment.color });
        i = i + 1;
    }
    // Top cap: center, then the rim.
    vertices.push(PipeVertex { position: segment.end, color: segment.color });
    let mut i2: u32 = 0;
    while i2 < sides
        invariant
            3 <= sides <= 512,
            seg_in_bounds(*segment),
            0 < segment.radius,
            nearly_unit(perp),
            nearly_unit(binormal),
            i2 <= sides,
            vertices@.len() == sides + 2 + i2,
            vertices@[0].position == segment.start,
            vertices@[sides as int + 1].position == segment.end,
            forall|j: int| 0 <= j < vertices@.len() ==> (#[trigger] vertices@[j]).color
                == segment.color,
            forall|j: int| 1 <= j <= sides ==> (#[trigger] vertices@[j]).position
                == rim_point_spec(
                segment.start,
                segment.radius,
                perp,
                binormal,
                j - 1,
                sides as int,
            ),
            forall|j: int| sides + 2 <= j < sides + 2 + i2 ==> (#[trigger] vertices@[j]).position
                == rim_point_spec(
                segment.end,
                segment.radius,
                perp,
                binormal,
                j - sides - 2,
                sides as int,
            ),
        decreases sides - i2,
    {
        let (c, s) = circle_point(i2, sides);
        proof {
            lemma_scale_range(perp, c as int, FX_ONE as int, FX_ONE as int);
            lemma_scale_range(binormal, s as int, FX_ONE as int, FX_ONE as int);
            lemma_scale_range(
                crate::vec3::vadd_spec(
                    crate::vec3::scale_spec(perp, c as int),
                    crate::vec3::scale_spec(binormal, s as int),
                ),
                segment.radius as int,
                2 * (FX_ONE as int) + 2,
                SEG_RADIUS_MAX_FX as int,
            );
        }
        let evec = vadd(scale(perp, c), scale(binormal, s));
        let off = scale(evec, segment.radius);
        let pos = vadd(segment.end, off);
        vertices.push(PipeVertex { position: pos, color: segment.color });
        i2 = i2 + 1;
    }
    vertices
}

/// The `12 * sides` indices of one cylinder, exactly `cyl_index_spec`:
/// the bottom cap, the top cap, and the split side-wall quads, all wound
/// counter-clockwise as seen from outside.
fn cylinder_indices(sides: u32) -> (is: Vec<u32>)
    requires
        3 <= sides <= 512,
    ensures
        is@.len() == 12 * sides,
        forall|k: int| 0 <= k < is@.len() ==> (#[trigger] is@[k]) as int == cyl_index_spec(
            sides as int,
            k,
        ),
        forall|k: int| 0 <= k < is@.len() ==> ((#[trigger] is@[k]) as int) < 2 * sides + 2,
{
    let mut indices: Vec<u32> = Vec::new();
    // Bottom cap triangles, counter-clockwise seen from below.
    let mut t: u32 = 0;
    while t < sides
        invariant
            3 <= sides <= 512,
            t <= sides,
            indices@.len() == 3 * t,
            forall|k: int| 0 <= k < indices@.len() ==> (#[trigger] indices@[k]) as int
                == cyl_index_spec(sides as int, k),
            forall|k: int| 0 <= k < indices@.len() ==> ((#[trigger] indices@[k]) as int) < 2
                * sides + 2,
        decreases sides - t,
    {
        indices.push(0);
        indices.push(1 + (t + 1) % sides);
        indices.push(1 + t);
        t = t + 1;
    }
    // Top cap triangles, counter-clockwise seen from above.
    let top_center: u32 = 1 + sides;
    let mut t2: u32 = 0;
    while t2 < sides
        invariant
            3 <= sides <= 512,
            top_center == 1 + sides,
            t2 <= sides,
            indices@.len() == 3 * sides + 3 * t2,
            forall|k: int| 0 <= k < indices@.len() ==> (#[trigger] indices@[k]) as int
                == cyl_index_spec(sides as int, k),
            forall|k: int| 0 <= k < indices@.len() ==> ((#[trigger] indices@[k]) as int) < 2
                * sides + 2,
        decreases sides - t2,
    {
        indices.push(top_center);
        indices.push(top_center + 1 + t2);
        indices.push(top_center + 1 + (t2 + 1) % sides);
        t2 = t2 + 1;
    }
    // Side wall: one quad per rim edge, split into two triangles.
    let mut t3: u32 = 0;
    while t3 < sides
        invariant
            3 <= sides <= 512,
            top_center == 1 + sides,
            t3 <= sides,
            indices@.len() == 6 * sides + 6 * t3,
            forall|k: int| 0 <= k < indices@.len() ==> (#[trigger] indices@[k]) as int
                == cyl_index_spec(sides as int, k),
            forall|k: int| 0 <= k < indices@.len() ==> ((#[trigger] indices@[k]) as int) < 2
                * sides + 2,
        decreases sides - t3,
    {
        let bottom_curr: u32 = 1 + t3;
        let bottom_next: u32 = 1 + (t3 + 1) % sides;
        let top_curr: u32 = top_center + 1 + t3;
        let top_next: u32 = top_center + 1 + (t3 + 1) % sides;
        indices.push(bottom_curr);
        indices.push(bottom_next);
        indices.push(top_next);
        indices.push(bottom_curr);
        indices.push(top_next);
        indices.push(top_curr);
        t3 = t3 + 1;
    }
    indices
}

/// Entry `k` of live block `c` in a combined index list: the cylinder
/// pattern offset by the vertices of the `c` blocks before it.
pub open spec fn block_entry_ok(is: Seq<u32>, sides: int, c: int, k: int) -> bool {
    is[c * (12 * sides) + k] as int == c * (2 * sides + 2) + cyl_index_spec(sides, k)
}

/// Live counts grow along the list: a longer prefix has at least as many
/// live segments, and strictly more past a live one.
pub proof fn lemma_live_count_monotone(segs: Seq<LineSegment>, j: int, i: int)
    requires
        0 <= j <= i <= segs.len(),
    ensures
        live_count(segs.take(j)) <= live_count(segs.take(i)),
        j < i && !seg_degenerate(segs[j]) ==> live_count(segs.take(j)) + 1 <= live_count(
            segs.take(i),
        ),
    decreases i - j,
{
    if j < i {
        lemma_live_count_monotone(segs, j, i - 1);
        assert(segs.take(i).drop_last() =~= segs.take(i - 1));
        assert(segs.take(i).last() == segs[i - 1]);
        lemma_live_count_bounds(segs.take(i - 1));
        if j == i - 1 {
            assert(segs.take(j + 1).drop_last() =~= segs.take(j));
        }
    }
}

/// Vertex block `c` of a combined mesh holds one segment's full cylinder.
pub open spec fn vertex_block_ok(vs: Seq<PipeVertex>, sides: int, c: int, seg: LineSegment) -> bool {
    cylinder_vertices_ok(
        vs.subrange(c * (2 * sides + 2), c * (2 * sides + 2) + 2 * sides + 2),
        seg,
        sides,
    )
}

/// Builds one combined mesh from a list of segments: each non-degenerate
/// segment contributes its full cylinder with indices offset by the
/// vertex count already emitted, and degenerate segments are skipped, so
/// `n` live segments yield exactly `n * (2 * sides + 2)` vertices and
/// `n * 12 * sides` indices, every index below the vertex count.
pub fn build(segments: &Vec<LineSegment>, sides: u32) -> (out: (Vec<PipeVertex>, Vec<u32>))
    requires
        3 <= sides <= 512,
        segments@.len() <= 0x100000,
        forall|i: int| 0 <= i < segments@.len() ==> seg_in_bounds(#[trigger] segments@[i]),
    ensures
        out.0@.len() == live_count(segments@) * (2 * sides + 2),
        out.1@.len() == live_count(segments@) * (12 * sides),
        forall|k: int| 0 <= k < out.1@.len() ==> ((#[trigger] out.1@[k]) as int) < out.0@.len(),
        forall|c: int, k: int|
            0 <= c < live_count(segments@) && 0 <= k < 12 * sides ==> #[trigger] block_entry_ok(
                out.1@,
                sides as int,
                c,
                k,
            ),
        forall|j: int|
            0 <= j < segments@.len() && !seg_degenerate(segments@[j]) ==> #[trigger] vertex_block_ok(
                out.0@,
                sides as int,
                live_count(segments@.take(j)),
                segments@[j],
            ),
{
    let mut vertices: Vec<PipeVertex> = Vec::new();
    let mut indices: Vec<u32> = Vec::new();
    let mut i: usize = 0;
    while i < segments.len()
        invariant
            3 <= sides <= 512,
            segments@.len() <= 0x100000,
            forall|j: int| 0 <= j < segments@.len() ==> seg_in_bounds(#[trigger] segments@[j]),
            i <= segments@.len(),
            vertices@.len() == live_count(segments@.take(i as int)) * (2 * sides + 2),
            indices@.len() == live_count(segments@.take(i as int)) * (12 * sides),
            forall|k: int| 0 <= k < indices@.len() ==> ((#[trigger] indices@[k]) as int)
                < vertices@.len(),
            forall|c: int, k: int|
                0 <= c < live_count(segments@.take(i as int)) && 0 <= k < 12 * sides
                    ==> #[trigger] block_entry_ok(indices@, sides as int, c, k),
            forall|j: int|
                0 <= j < i && !seg_degenerate(segments@[j]) ==> #[trigger] vertex_block_ok(
                    vertices@,
                    sides as int,
                    live_count(segments@.take(j)),
                    segments@[j],
                ),
        decreases segments@.len() - i,
    {
        proof {
            lemma_live_count_bounds(segments@.take(i as int));
            assert(live_count(segments@.take(i as int)) * (2 * sides + 2) <= 0x100000 * (2 * 512
                + 2)) by (nonlinear_arith)
                requires
                    0 <= live_count(segments@.take(i as int)) <= 0x100000,
                    3 <= sides <= 512,
            ;
        }
        let seg = segments[i];
        let (mut vs, is_) = create_cylinder_for_line(&seg, sides);
        let base: u32 = vertices.len() as u32;
        let mut j: usize = 0;
        while j < is_.len()
            invariant
                3 <= sides <= 512,
                base <= 0x40400000,
                0 <= live_count(segments@.take(i as int)) <= 0x100000,
                is_@.len() <= 12 * sides,
                forall|k: int| 0 <= k < is_@.len() ==> ((#[trigger] is_@[k]) as int) < 2 * sides
                    + 2,
                j <= is_@.len(),
                indices@.len() == live_count(segments@.take(i as int)) * (12 * sides) + j,
                forall|k: int| 0 <= k < live_count(segments@.take(i as int)) * (12 * sides)
                    ==> ((#[trigger] indices@[k]) as int) < base,
                forall|k: int| live_count(segments@.take(i as int)) * (12 * sides) <= k
                    < indices@.len() ==> ((#[trigger] indices@[k]) as int) < base + 2 * sides + 2,
                forall|k: int| live_count(segments@.take(i as int)) * (12 * sides) <= k
                    < indices@.len() ==> ((#[trigger] indices@[k]) as int) == base + is_@[k
                    - live_count(segments@.take(i as int)) * (12 * sides)],
                forall|c: int, k: int|
                    0 <= c < live_count(segments@.take(i as int)) && 0 <= k < 12 * sides
                        ==> #[trigger] block_entry_ok(indices@, sides as int, c, k),
                vertices@.len() == base,
            decreases is_@.len() - j,
        {
            let v: u32 = base + is_[j];
            proof {
                assert(((is_@[j as int]) as int) < 2 * sides + 2);
            }
            let ghost pre = indices@;
            indices.push(v);
            proof {
                assert(indices@[indices@.len() - 1] == v);
                let lc = live_count(segments@.take(i as int));
                assert forall|c2: int, k2: int|
                    0 <= c2 < lc && 0 <= k2 < 12 * sides implies #[trigger] block_entry_ok(
                    indices@,
                    sides as int,
                    c2,
                    k2,
                ) by {
                    assert(block_entry_ok(pre, sides as int, c2, k2));
                    assert(c2 * (12 * sides) + k2 < lc * (12 * sides)) by (nonlinear_arith)
                        requires
                            0 <= c2,
                            c2 < lc,
                            0 <= k2,
                            k2 < 12 * sides,
                            3 <= sides,
                    ;
                    assert(indices@[c2 * (12 * sides) + k2] == pre[c2 * (12 * sides) + k2]);
                }
            }
            j = j + 1;
        }
        let ghost pre_v = vertices@;
        let ghost seg_vs = vs@;
        vertices.append(&mut vs);
        proof {
            assert(segments@.take(i as int + 1).drop_last() =~= segments@.take(i as int));
            assert(segments@.take(i as int + 1).last() == segments@[i as int]);
            let lc = live_count(segments@.take(i as int));
            assert((lc + 1) * (2 * sides + 2) == lc * (2 * sides + 2) + (2 * sides + 2))
                by (nonlinear_arith);
            assert((lc + 1) * (12 * sides) == lc * (12 * sides) + (12 * sides))
                by (nonlinear_arith);
            if !seg_degenerate(segments@[i as int]) {
                assert forall|k: int| 0 <= k < 12 * sides implies #[trigger] block_entry_ok(
                    indices@,
                    sides as int,
                    lc,
                    k,
                ) by {
                    assert(indices@[lc * (12 * sides) + k] as int == base + is_@[k]);
                    assert(is_@[k] as int == cyl_index_spec(sides as int, k));
                }
                assert(vertices@.subrange(
                    lc * (2 * sides + 2),
                    lc * (2 * sides + 2) + 2 * sides + 2,
                ) =~= seg_vs);
                assert(vertex_block_ok(vertices@, sides as int, lc, segments@[i as int]));
            }
            assert forall|j: int|
                0 <= j < i + 1 && !seg_degenerate(segments@[j]) implies #[trigger] vertex_block_ok(
                vertices@,
                sides as int,
                live_count(segments@.take(j)),
                segments@[j],
            ) by {
                if j < i {
                    let c = live_count(segments@.take(j));
                    lemma_live_count_bounds(segments@.take(j));
                    lemma_live_count_monotone(segments@, j, i as int);
                    assert((c + 1) * (2 * sides + 2) <= lc * (2 * sides + 2)) by (nonlinear_arith)
                        requires
                            c + 1 <= lc,
                            3 <= sides <= 512,
                    ;
                    assert((c + 1) * (2 * sides + 2) == c * (2 * sides + 2) + (2 * sides + 2))
                        by (nonlinear_arith);
                    assert(c * (2 * sides + 2) >= 0) by (nonlinear_arith)
                        requires
                            c >= 0,
                            3 <= sides <= 512,
                    ;
                    assert(vertex_block_ok(pre_v, sides as int, c, segments@[j]));
                    assert(vertices@.subrange(
                        c * (2 * sides + 2),
                        c * (2 * sides + 2) + 2 * sides + 2,
                    ) =~= pre_v.subrange(
                        c * (2 * sides + 2),
                        c * (2 * sides + 2) + 2 * sides + 2,
                    ));
                }
            }
        }
        i = i + 1;
    }
    proof {
        assert(segments@.take(segments@.len() as int) =~= segments@);
    }
    (vertices, indices)
}

/// Converts generated line geometry into pipe segments of one shared
/// radius, each keeping its line's endpoints and color: the glue between
/// the line generators and the cylinder builder.
pub fn pipes_from_lines(lines: &Vec<crate::geometry_generator::Line>, radius: i64) -> (segs: Vec<
    LineSegment,
>)
    requires
        lines@.len() <= 0x100000,
    ensures
        segs@.len() == lines@.len(),
        forall|i: int|
            0 <= i < segs@.len() ==> (#[trigger] segs@[i]) == (LineSegment {
                start: lines@[i].start,
                end: lines@[i].end,
                color: lines@[i].color,
                radius,
            }),
{
    let mut segs: Vec<LineSegment> = Vec::new();
    let mut i: usize = 0;
    while i < lines.len()
        invariant
            lines@.len() <= 0x100000,
            i <= lines@.len(),
            segs@.len() == i,
            forall|j: int|
                0 <= j < i ==> (#[trigger] segs@[j]) == (LineSegment {
                    start: lines@[j].start,
                    end: lines@[j].end,
                    color: lines@[j].color,
                    radius,
                }),
        decreases lines@.len() - i,
    {
        let line = lines[i];
        segs.push(LineSegment { start: line.start, end: line.end, color: line.color, radius });
        i = i + 1;
    }
    segs
}

} // verus!
