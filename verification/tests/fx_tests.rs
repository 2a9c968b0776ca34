//! Runtime checks of the fixed-point scalar, vector and circle functions.

use viewer_core::fx::{clamp_i64, fx_mul, isqrt_u128, FX_ONE};
use viewer_core::trig::circle_point;
use viewer_core::vec3::{direction_or, normalize_or, unit_x, unit_z, Vec3};

fn fx(x: f64) -> i64 {
    (x * FX_ONE as f64).round() as i64
}

fn fxf(v: i64) -> f64 {
    v as f64 / FX_ONE as f64
}

#[test]
fn isqrt_is_exact_floor() {
    assert_eq!(isqrt_u128(0), 0);
    assert_eq!(isqrt_u128(1), 1);
    assert_eq!(isqrt_u128(3), 1);
    assert_eq!(isqrt_u128(4), 2);
    assert_eq!(isqrt_u128(10), 3);
    assert_eq!(isqrt_u128(99), 9);
    assert_eq!(isqrt_u128(100), 10);
    assert_eq!(isqrt_u128((1u128 << 80) - 1), (1u128 << 40) - 1);
    assert_eq!(isqrt_u128(u128::MAX), (1u128 << 64) - 1);
}

#[test]
fn fixed_point_product_truncates_toward_zero() {
    assert_eq!(fx_mul(fx(1.5), fx(2.0)), fx(3.0));
    assert_eq!(fx_mul(fx(-1.5), fx(2.0)), fx(-3.0));
    assert_eq!(fx_mul(3, 1), 0);
    assert_eq!(fx_mul(-3, 1), 0);
    assert_eq!(fx_mul(FX_ONE, FX_ONE), FX_ONE);
}

#[test]
fn clamp_matches_bounds() {
    assert_eq!(clamp_i64(5, 0, 10), 5);
    assert_eq!(clamp_i64(-5, 0, 10), 0);
    assert_eq!(clamp_i64(15, 0, 10), 10);
    assert_eq!(clamp_i64(i64::MIN, -3, 3), -3);
    assert_eq!(clamp_i64(i64::MAX, -3, 3), 3);
}

#[test]
fn circle_points_match_reference_cosine() {
    for n in [3u32, 4, 8, 12, 64, 512] {
        for i in 0..n {
            let (c, s) = circle_point(i, n);
            let ang = 2.0 * std::f64::consts::PI * (i as f64) / (n as f64);
            assert!(
                (fxf(c) - ang.cos()).abs() < 2e-4,
                "cos off at {}/{}: {} vs {}",
                i,
                n,
                fxf(c),
                ang.cos()
            );
            assert!(
                (fxf(s) - ang.sin()).abs() < 2e-4,
                "sin off at {}/{}: {} vs {}",
                i,
                n,
                fxf(s),
                ang.sin()
            );
        }
    }
}

#[test]
fn normalize_rescales_to_unit_length() {
    let v = Vec3 { x: fx(3.0), y: fx(4.0), z: 0 };
    let n = normalize_or(v, unit_x());
    assert!((fxf(n.x) - 0.6).abs() < 1e-4);
    assert!((fxf(n.y) - 0.8).abs() < 1e-4);
    assert_eq!(n.z, 0);
}

#[test]
fn normalize_falls_back_on_zero_input() {
    let z = Vec3 { x: 0, y: 0, z: 0 };
    let n = normalize_or(z, unit_x());
    assert_eq!(n, unit_x());
}

#[test]
fn short_vectors_keep_their_direction() {
    let v = Vec3 { x: fx(0.001), y: fx(0.002), z: fx(-0.002) };
    let n = direction_or(v, unit_z());
    let len = (fxf(n.x).powi(2) + fxf(n.y).powi(2) + fxf(n.z).powi(2)).sqrt();
    assert!((len - 1.0).abs() < 1e-4);
    let expect = 1.0 / 3.0;
    assert!((fxf(n.x) - expect).abs() < 1e-3);
    assert!((fxf(n.y) - 2.0 * expect).abs() < 1e-3);
    assert!((fxf(n.z) + 2.0 * expect).abs() < 1e-3);
}
