//! Runtime checks of the orbit camera against floating-point references.

use viewer_core::camera::{ButtonState, Camera, CameraController, CameraKey, PointerButton, ScrollAmount};
use viewer_core::fx::FX_ONE;
use viewer_core::vec3::Vec3;

fn fx(x: f64) -> i64 {
    (x * FX_ONE as f64).round() as i64
}

fn fxf(v: i64) -> f64 {
    v as f64 / FX_ONE as f64
}

fn v3(x: f64, y: f64, z: f64) -> Vec3 {
    Vec3 { x: fx(x), y: fx(y), z: fx(z) }
}

fn quat_norm(c: &Camera) -> f64 {
    let w = fxf(c.orientation.w);
    let x = fxf(c.orientation.x);
    let y = fxf(c.orientation.y);
    let z = fxf(c.orientation.z);
    (w * w + x * x + y * y + z * z).sqrt()
}

fn vec_norm(v: &Vec3) -> f64 {
    let x = fxf(v.x);
    let y = fxf(v.y);
    let z = fxf(v.z);
    (x * x + y * y + z * z).sqrt()
}

fn dot_unit(a: &Vec3, b: &Vec3) -> f64 {
    let num = fxf(a.x) * fxf(b.x) + fxf(a.y) * fxf(b.y) + fxf(a.z) * fxf(b.z);
    num / (vec_norm(a) * vec_norm(b))
}

#[test]
fn orbit_keeps_orientation_normalized() {
    let mut cam = Camera::new(v3(4.0, -3.0, 2.0), v3(0.0, 0.0, 0.0));
    assert!((quat_norm(&cam) - 1.0).abs() < 1e-5);
    let deltas = [0.05f64, -0.03, 0.1, 0.02, -0.09, 0.07, 0.01, -0.05];
    for step in 0..200usize {
        let dy = deltas[step % deltas.len()];
        let dp = deltas[(step + 3) % deltas.len()];
        cam.orbit(fx(dy), fx(dp));
        assert!((quat_norm(&cam) - 1.0).abs() < 1e-5, "step {}", step);
    }
}

#[test]
fn orbit_turns_the_view() {
    let mut cam = Camera::new(v3(0.0, -6.0, 0.0), v3(0.0, 0.0, 0.0));
    let before = cam.orientation;
    let position_before = cam.position;
    cam.orbit(fx(0.1), 0);
    assert!(cam.orientation != before, "a nonzero yaw must change the orientation");
    assert!(cam.position != position_before, "the eye must move around the target");
}

#[test]
fn zoom_clamps_distance() {
    let mut cam = Camera::new(v3(0.0, -10.0, 0.0), v3(0.0, 0.0, 0.0));
    let scrolls: [i64; 7] = [
        0x100000000,
        -0x100000000,
        fx(0.5),
        fx(-0.5),
        fx(100.0),
        fx(-100.0),
        fx(0.01),
    ];
    for rounds in 0..40usize {
        let s = scrolls[rounds % scrolls.len()];
        cam.zoom(s);
        assert!(cam.distance >= fx(0.5), "distance fell below the floor");
        assert!(cam.distance <= fx(100.0), "distance rose above the cap");
    }
}

#[test]
fn zoom_scales_distance_by_five_percent_per_step() {
    let mut cam = Camera::new(v3(0.0, -10.0, 0.0), v3(0.0, 0.0, 0.0));
    let before = fxf(cam.distance);
    cam.zoom(fx(1.0));
    let after = fxf(cam.distance);
    assert!((after - before * 1.05).abs() < 1e-3);
}

#[test]
fn orbit_across_pole_keeps_right_vector_continuous() {
    let mut cam = Camera::new(v3(0.0, -8.0, 0.0), v3(0.0, 0.0, 0.0));
    let mut prev = cam.last_right;
    // Pitch far past vertical in small steps: the cached right vector must
    // never jump to a near-opposite direction between frames.
    for step in 0..140usize {
        cam.orbit(0, fx(0.045));
        let d = dot_unit(&cam.last_right, &prev);
        assert!(d > -0.5, "right vector flipped at step {}: dot {}", step, d);
        prev = cam.last_right;
    }
}

#[test]
fn reset_restores_initial_view() {
    let mut cam = Camera::new(v3(3.0, 4.0, 5.0), v3(1.0, 0.0, -1.0));
    let position0 = cam.position;
    let target0 = cam.target;
    let distance0 = cam.distance;
    let orientation0 = cam.orientation;
    for step in 0..30usize {
        cam.orbit(fx(0.08), fx(-0.06));
        cam.pan(fx(1.5), fx(-0.7));
        cam.zoom(fx(if step % 2 == 0 { 0.8 } else { -0.6 }));
    }
    cam.reset_to_initial();
    assert_eq!(cam.target, target0);
    assert_eq!(cam.distance, distance0);
    assert_eq!(cam.orientation, orientation0);
    assert_eq!(cam.position, position0);
}

#[test]
fn new_looks_toward_target() {
    let cam = Camera::new(v3(0.0, -6.0, 0.0), v3(0.0, 0.0, 0.0));
    assert!((fxf(cam.distance) - 6.0).abs() < 1e-3);
    // The derived position must sit where the eye was asked to stand.
    assert!((fxf(cam.position.x) - 0.0).abs() < 1e-2);
    assert!((fxf(cam.position.y) + 6.0).abs() < 1e-2);
    assert!((fxf(cam.position.z) - 0.0).abs() < 1e-2);
}

#[test]
fn pan_translates_position_and_target_together() {
    let mut cam = Camera::new(v3(0.0, -5.0, 0.0), v3(0.0, 0.0, 0.0));
    let before_dir = (
        cam.position.x - cam.target.x,
        cam.position.y - cam.target.y,
        cam.position.z - cam.target.z,
    );
    let target_before = cam.target;
    cam.pan(fx(2.0), fx(1.0));
    let after_dir = (
        cam.position.x - cam.target.x,
        cam.position.y - cam.target.y,
        cam.position.z - cam.target.z,
    );
    assert_eq!(before_dir, after_dir);
    assert!(cam.target != target_before, "pan with nonzero amounts must move the target");
    assert_eq!(cam.distance, fx(5.0));
}

#[test]
fn view_matrix_has_affine_bottom_row() {
    let cam = Camera::new(v3(2.0, -7.0, 3.0), v3(0.0, 1.0, 0.0));
    let m = cam.calc_matrix();
    assert_eq!(m.r3.x, 0);
    assert_eq!(m.r3.y, 0);
    assert_eq!(m.r3.z, 0);
    assert_eq!(m.r3.w, FX_ONE);
    // The side row is a unit vector.
    let s = Vec3 { x: m.r0.x, y: m.r0.y, z: m.r0.z };
    assert!((vec_norm(&s) - 1.0).abs() < 1e-4);
}

#[test]
fn view_matrix_matches_reference_look_at() {
    let cam = Camera::new(v3(3.0, -5.0, 2.0), v3(0.5, 0.5, 0.0));
    let m = cam.calc_matrix();
    // Reference right-handed look-at from the same eye, target and up.
    let eye = [fxf(cam.position.x), fxf(cam.position.y), fxf(cam.position.z)];
    let tgt = [fxf(cam.target.x), fxf(cam.target.y), fxf(cam.target.z)];
    let up = [fxf(cam.up.x), fxf(cam.up.y), fxf(cam.up.z)];
    let fv = norm3([tgt[0] - eye[0], tgt[1] - eye[1], tgt[2] - eye[2]]);
    let sv = norm3(cross3(fv, up));
    let uv = cross3(sv, fv);
    let rows = [
        [fxf(m.r0.x), fxf(m.r0.y), fxf(m.r0.z), fxf(m.r0.w)],
        [fxf(m.r1.x), fxf(m.r1.y), fxf(m.r1.z), fxf(m.r1.w)],
        [fxf(m.r2.x), fxf(m.r2.y), fxf(m.r2.z), fxf(m.r2.w)],
    ];
    let expect = [
        [sv[0], sv[1], sv[2], -dot3(sv, eye)],
        [uv[0], uv[1], uv[2], -dot3(uv, eye)],
        [-fv[0], -fv[1], -fv[2], dot3(fv, eye)],
    ];
    for r in 0..3 {
        for c in 0..4 {
            assert!(
                (rows[r][c] - expect[r][c]).abs() < 1e-3,
                "row {} col {}: {} vs {}",
                r,
                c,
                rows[r][c],
                expect[r][c]
            );
        }
    }
}

fn cross3(a: [f64; 3], b: [f64; 3]) -> [f64; 3] {
    [a[1] * b[2] - a[2] * b[1], a[2] * b[0] - a[0] * b[2], a[0] * b[1] - a[1] * b[0]]
}

fn dot3(a: [f64; 3], b: [f64; 3]) -> f64 {
    a[0] * b[0] + a[1] * b[1] + a[2] * b[2]
}

fn norm3(a: [f64; 3]) -> [f64; 3] {
    let l = dot3(a, a).sqrt();
    [a[0] / l, a[1] / l, a[2] / l]
}

#[test]
fn controller_tracks_keys_and_buttons() {
    let mut ctl = CameraController::new(fx(4.0), fx(1.0));
    assert!(ctl.process_keyboard(CameraKey::KeyW, ButtonState::Pressed));
    assert_eq!(ctl.amount_up, FX_ONE);
    assert!(ctl.process_keyboard(CameraKey::KeyW, ButtonState::Released));
    assert_eq!(ctl.amount_up, 0);
    assert!(!ctl.process_keyboard(CameraKey::Other, ButtonState::Pressed));
    assert!(ctl.process_mouse_button(ButtonState::Pressed, PointerButton::Right));
    assert!(ctl.is_orbiting);
    ctl.process_mouse(fx(3.0), fx(-2.0));
    assert_eq!(ctl.mouse_delta_x, fx(3.0));
    assert_eq!(ctl.mouse_delta_y, fx(-2.0));
    assert!(ctl.process_mouse_button(ButtonState::Released, PointerButton::Right));
    assert_eq!(ctl.mouse_delta_x, 0);
    assert!(!ctl.process_mouse_button(ButtonState::Pressed, PointerButton::Left));
}

#[test]
fn controller_scroll_and_reset_drive_camera() {
    let mut ctl = CameraController::new(fx(4.0), fx(1.0));
    let mut cam = Camera::new(v3(0.0, -10.0, 0.0), v3(0.0, 0.0, 0.0));
    let d0 = cam.distance;
    ctl.process_scroll(&ScrollAmount::Lines(fx(-1.0)));
    ctl.update_camera(&mut cam, fx(0.016));
    assert_eq!(ctl.scroll, 0);
    assert!(cam.distance > d0, "scrolling a line toward the user zooms out");
    ctl.process_keyboard(CameraKey::KeyC, ButtonState::Pressed);
    ctl.update_camera(&mut cam, fx(0.016));
    assert!(!ctl.reset_camera_pressed);
    assert_eq!(cam.distance, d0);
    assert_eq!(cam.target, Vec3 { x: 0, y: 0, z: 0 });
}

#[test]
fn controller_orbit_and_pan_drive_camera() {
    let mut ctl = CameraController::new(fx(4.0), fx(1.0));
    let mut cam = Camera::new(v3(0.0, -10.0, 0.0), v3(0.0, 0.0, 0.0));
    let orientation0 = cam.orientation;
    ctl.process_mouse_button(ButtonState::Pressed, PointerButton::Right);
    ctl.process_mouse(fx(20.0), fx(-10.0));
    ctl.update_camera(&mut cam, fx(0.016));
    assert!(cam.orientation != orientation0, "an orbit drag must turn the camera");
    ctl.process_mouse_button(ButtonState::Released, PointerButton::Right);
    let target0 = cam.target;
    ctl.process_mouse_button(ButtonState::Pressed, PointerButton::Middle);
    ctl.process_mouse(fx(30.0), fx(15.0));
    ctl.update_camera(&mut cam, fx(0.016));
    assert!(cam.target != target0, "a pan drag must move the target");
}

#[test]
fn reset_is_idempotent() {
    let mut cam = Camera::new(v3(2.0, -4.0, 3.0), v3(0.0, 1.0, 0.0));
    for _ in 0..10usize {
        cam.orbit(fx(0.09), fx(-0.07));
        cam.pan(fx(1.0), fx(0.5));
        cam.zoom(fx(0.4));
    }
    cam.reset_to_initial();
    let position1 = cam.position;
    let target1 = cam.target;
    let up1 = cam.up;
    let distance1 = cam.distance;
    let orientation1 = cam.orientation;
    let last_right1 = cam.last_right;
    cam.reset_to_initial();
    assert_eq!(cam.position, position1);
    assert_eq!(cam.target, target1);
    assert_eq!(cam.up, up1);
    assert_eq!(cam.distance, distance1);
    assert_eq!(cam.orientation, orientation1);
    assert_eq!(cam.last_right, last_right1);
}

#[test]
fn pixel_scroll_is_scaled_down() {
    let mut ctl = CameraController::new(fx(4.0), fx(1.0));
    ctl.process_scroll(&ScrollAmount::Pixels(fx(100.0)));
    let got = fxf(ctl.scroll);
    assert!((got + 0.5).abs() < 2e-3, "100 pixels scroll about half a step, got {}", got);
}
