//! Runtime checks of the pipe mesh builder: counts, winding and geometry.

use viewer_core::fx::FX_ONE;
use viewer_core::pipe::{build, create_cylinder_for_line, LineSegment, PipeVertex};
use viewer_core::vec3::Vec3;

fn fx(x: f64) -> i64 {
    (x * FX_ONE as f64).round() as i64
}

fn fxf(v: i64) -> f64 {
    v as f64 / FX_ONE as f64
}

fn v3(x: f64, y: f64, z: f64) -> Vec3 {
    Vec3 { x: fx(x), y: fx(y), z: fx(z) }
}

fn seg(start: Vec3, end: Vec3, color: Vec3, radius: f64) -> LineSegment {
    LineSegment { start, end, color, radius: fx(radius) }
}

fn pos_f(v: &PipeVertex) -> [f64; 3] {
    [fxf(v.position.x), fxf(v.position.y), fxf(v.position.z)]
}

#[test]
fn segment_count_law() {
    let red = v3(1.0, 0.0, 0.0);
    let segments = vec![
        seg(v3(0.0, 0.0, 0.0), v3(0.0, 0.0, 2.0), red, 0.25),
        seg(v3(1.0, 1.0, 1.0), v3(1.0, 1.0, 1.0), red, 0.25),
        seg(v3(-1.0, 0.5, 0.0), v3(2.0, -0.5, 1.0), red, 0.1),
    ];
    let sides: u32 = 8;
    let (vertices, indices) = build(&segments, sides);
    // Two live segments: the middle one is degenerate and contributes nothing.
    assert_eq!(vertices.len(), 2 * (2 * sides as usize + 2));
    assert_eq!(indices.len(), 2 * 12 * sides as usize);
    for &ix in &indices {
        assert!((ix as usize) < vertices.len());
    }
}

#[test]
fn degenerate_segment_yields_empty() {
    let p = v3(0.3, -0.7, 1.1);
    let segments = vec![seg(p, p, v3(0.2, 0.4, 0.9), 0.5)];
    let (vertices, indices) = build(&segments, 8);
    assert!(vertices.is_empty());
    assert!(indices.is_empty());
}

#[test]
fn zero_radius_segment_yields_empty() {
    let segments = vec![seg(v3(0.0, 0.0, 0.0), v3(1.0, 0.0, 0.0), v3(1.0, 1.0, 1.0), 0.0)];
    let (vertices, indices) = build(&segments, 6);
    assert!(vertices.is_empty());
    assert!(indices.is_empty());
}

#[test]
fn winding_consistent_single_segment() {
    let s = seg(v3(0.0, 0.0, 0.0), v3(0.0, 0.0, 2.0), v3(0.0, 1.0, 0.0), 1.0);
    let (vertices, indices) = create_cylinder_for_line(&s, 8);
    assert_eq!(vertices.len(), 18);
    assert_eq!(indices.len(), 96);
    // The cylinder is convex around its midpoint: every counter-clockwise
    // triangle, seen from outside, has a normal pointing away from it.
    let mid = [0.0, 0.0, 1.0];
    for t in 0..(indices.len() / 3) {
        let a = pos_f(&vertices[indices[3 * t] as usize]);
        let b = pos_f(&vertices[indices[3 * t + 1] as usize]);
        let c = pos_f(&vertices[indices[3 * t + 2] as usize]);
        let ab = [b[0] - a[0], b[1] - a[1], b[2] - a[2]];
        let ac = [c[0] - a[0], c[1] - a[1], c[2] - a[2]];
        let n = [
            ab[1] * ac[2] - ab[2] * ac[1],
            ab[2] * ac[0] - ab[0] * ac[2],
            ab[0] * ac[1] - ab[1] * ac[0],
        ];
        let g = [
            (a[0] + b[0] + c[0]) / 3.0 - mid[0],
            (a[1] + b[1] + c[1]) / 3.0 - mid[1],
            (a[2] + b[2] + c[2]) / 3.0 - mid[2],
        ];
        let outward = n[0] * g[0] + n[1] * g[1] + n[2] * g[2];
        assert!(outward > 1e-6, "triangle {} winds inward: {}", t, outward);
    }
}

#[test]
fn unit_pipe_example() {
    let s = seg(v3(0.0, 0.0, 0.0), v3(0.0, 0.0, 1.0), v3(1.0, 0.0, 0.0), 0.1);
    let (vertices, indices) = create_cylinder_for_line(&s, 4);
    assert_eq!(vertices.len(), 10);
    assert_eq!(indices.len(), 48);
    for v in &vertices {
        assert_eq!(v.color, v3(1.0, 0.0, 0.0));
    }
    // Cap centers sit on the axis; rim vertices sit at the pipe radius.
    for (j, v) in vertices.iter().enumerate() {
        let p = pos_f(v);
        let radial = (p[0] * p[0] + p[1] * p[1]).sqrt();
        if j == 0 || j == 5 {
            assert!(radial < 1e-3, "cap center {} off the axis: {}", j, radial);
        } else {
            assert!((radial - 0.1).abs() < 1e-3, "rim vertex {} at radius {}", j, radial);
        }
        assert!(p[2] > -1e-3 && p[2] < 1.0 + 1e-3);
    }
}

#[test]
fn index_pattern_for_three_sides() {
    let s = seg(v3(0.0, 0.0, 0.0), v3(1.0, 0.0, 0.0), v3(0.5, 0.5, 0.5), 0.2);
    let (vertices, indices) = create_cylinder_for_line(&s, 3);
    assert_eq!(vertices.len(), 8);
    let expected: Vec<u32> = vec![
        0, 2, 1, 0, 3, 2, 0, 1, 3, // bottom cap
        4, 5, 6, 4, 6, 7, 4, 7, 5, // top cap
        1, 2, 6, 1, 6, 5, // side quad 0
        2, 3, 7, 2, 7, 6, // side quad 1
        3, 1, 5, 3, 5, 7, // side quad 2
    ];
    assert_eq!(indices, expected);
}

#[test]
fn concatenated_segments_offset_indices() {
    let red = v3(1.0, 0.0, 0.0);
    let segments = vec![
        seg(v3(0.0, 0.0, 0.0), v3(0.0, 0.0, 1.0), red, 0.1),
        seg(v3(0.0, 0.0, 2.0), v3(0.0, 0.0, 3.0), red, 0.1),
    ];
    let sides: u32 = 8;
    let (vertices, indices) = build(&segments, sides);
    let per_seg_verts = 2 * sides as usize + 2;
    let per_seg_idx = 12 * sides as usize;
    assert_eq!(vertices.len(), 2 * per_seg_verts);
    // The second block references only the second segment's vertices.
    let second = &indices[per_seg_idx..];
    assert_eq!(second.iter().copied().min(), Some(per_seg_verts as u32));
    assert!(second.iter().all(|&ix| (ix as usize) < 2 * per_seg_verts));
    // The first block never reaches past its own vertices.
    assert!(indices[..per_seg_idx].iter().all(|&ix| (ix as usize) < per_seg_verts));
}

#[test]
fn mixed_radii_and_colors_build_one_mesh() {
    let segments = vec![
        seg(v3(0.0, 0.0, 0.0), v3(1.0, 0.0, 0.0), v3(1.0, 0.0, 0.0), 0.05),
        seg(v3(0.0, 0.0, 0.0), v3(0.0, 1.0, 0.0), v3(0.0, 1.0, 0.0), 0.2),
    ];
    let (vertices, indices) = build(&segments, 12);
    assert_eq!(vertices.len(), 2 * 26);
    assert_eq!(indices.len(), 2 * 144);
    // Each block keeps its own color.
    assert_eq!(vertices[0].color, v3(1.0, 0.0, 0.0));
    assert_eq!(vertices[26].color, v3(0.0, 1.0, 0.0));
}
