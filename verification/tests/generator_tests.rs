//! Runtime checks of the procedural line-geometry generators.

use viewer_core::fx::FX_ONE;
use viewer_core::geometry_generator::{
    create_axes, create_boundary_box, create_grid_lines, create_helix, create_helix_polyline,
    create_polyline, line_vertices, Line,
};
use viewer_core::vec3::Vec3;

fn fx(x: f64) -> i64 {
    (x * FX_ONE as f64).round() as i64
}

fn fxf(v: i64) -> f64 {
    v as f64 / FX_ONE as f64
}

fn v3(x: f64, y: f64, z: f64) -> Vec3 {
    Vec3 { x: fx(x), y: fx(y), z: fx(z) }
}

#[test]
fn grid_has_eleven_stations_and_axis_markers() {
    let lines = create_grid_lines();
    assert_eq!(lines.len(), 24);
    let grey = lines[0].color;
    for line in &lines[..22] {
        assert_eq!(line.color, grey);
    }
    // First station runs the full depth of the grid at the left edge.
    assert!((fxf(lines[0].start.x) + 5.0).abs() < 1e-5);
    assert!((fxf(lines[0].start.z) + 5.0).abs() < 1e-5);
    assert!((fxf(lines[0].end.z) - 5.0).abs() < 1e-5);
    // The markers are colored and slightly lifted off the plane.
    assert_eq!(lines[22].color, Vec3 { x: FX_ONE, y: 0, z: 0 });
    assert_eq!(lines[23].color, Vec3 { x: 0, y: FX_ONE, z: 0 });
    assert!(fxf(lines[22].start.y) > 0.0);
    assert!((fxf(lines[22].end.x) - 5.0).abs() < 1e-5);
    assert!((fxf(lines[23].end.z) + 5.0).abs() < 1e-5);
}

#[test]
fn line_vertices_interleave_endpoints() {
    let lines = vec![
        Line { start: v3(0.0, 0.0, 0.0), end: v3(1.0, 0.0, 0.0), color: v3(1.0, 0.0, 0.0) },
        Line { start: v3(0.0, 1.0, 0.0), end: v3(0.0, 2.0, 0.0), color: v3(0.0, 1.0, 0.0) },
    ];
    let vs = line_vertices(&lines);
    assert_eq!(vs.len(), 4);
    assert_eq!(vs[0].position, lines[0].start);
    assert_eq!(vs[1].position, lines[0].end);
    assert_eq!(vs[2].position, lines[1].start);
    assert_eq!(vs[3].position, lines[1].end);
    assert_eq!(vs[2].color, lines[1].color);
}

#[test]
fn axes_run_along_the_three_directions() {
    let origin = v3(1.0, 2.0, 3.0);
    let colors = [v3(1.0, 0.0, 0.0), v3(0.0, 1.0, 0.0), v3(0.0, 0.0, 1.0)];
    let lines = create_axes(fx(2.5), origin, colors);
    assert_eq!(lines.len(), 3);
    for (i, line) in lines.iter().enumerate() {
        assert_eq!(line.start, origin);
        assert_eq!(line.color, colors[i]);
    }
    assert!((fxf(lines[0].end.x) - 3.5).abs() < 1e-5);
    assert!((fxf(lines[1].end.y) - 4.5).abs() < 1e-5);
    assert!((fxf(lines[2].end.z) - 5.5).abs() < 1e-5);
}

#[test]
fn boundary_box_has_twelve_edges() {
    let low = v3(-1.0, -2.0, -3.0);
    let high = v3(1.0, 2.0, 3.0);
    let color = v3(0.9, 0.9, 0.1);
    let lines = create_boundary_box(low, high, color);
    assert_eq!(lines.len(), 12);
    for line in &lines {
        assert_eq!(line.color, color);
        // Every edge is axis-aligned: exactly one coordinate changes.
        let changed = [
            line.start.x != line.end.x,
            line.start.y != line.end.y,
            line.start.z != line.end.z,
        ];
        assert_eq!(changed.iter().filter(|&&c| c).count(), 1);
    }
}

#[test]
fn polyline_connects_consecutive_points() {
    let points = vec![v3(0.0, 0.0, 0.0), v3(1.0, 0.0, 0.0), v3(1.0, 1.0, 0.0), v3(1.0, 1.0, 1.0)];
    let lines = create_polyline(&points, v3(0.5, 0.5, 0.5));
    assert_eq!(lines.len(), 3);
    for (i, line) in lines.iter().enumerate() {
        assert_eq!(line.start, points[i]);
        assert_eq!(line.end, points[i + 1]);
    }
}

#[test]
fn helix_winds_around_its_axis() {
    let lines = create_helix_polyline();
    assert_eq!(lines.len(), 100);
    let mut prev_y = f64::NEG_INFINITY;
    for line in &lines {
        // Each sample sits on the radius-three cylinder and climbs.
        let r = (fxf(line.start.x).powi(2) + fxf(line.start.z).powi(2)).sqrt();
        assert!((r - 3.0).abs() < 1e-3, "radius {}", r);
        let y = fxf(line.start.y);
        assert!(y >= prev_y);
        prev_y = y;
    }
    let top = fxf(lines[99].end.y);
    assert!((top - 10.0).abs() < 1e-3);
    // Against the reference parametrization: five turns over the run.
    let q1 = lines[25].start;
    let ang = 2.0 * std::f64::consts::PI * 5.0 * 25.0 / 100.0;
    assert!((fxf(q1.x) - 3.0 * ang.cos()).abs() < 2e-3);
    assert!((fxf(q1.z) - 3.0 * ang.sin()).abs() < 2e-3);
}

#[test]
fn small_helix_sample_counts() {
    let lines = create_helix(fx(1.0), fx(2.0), fx(2.0), 8);
    assert_eq!(lines.len(), 16);
}
