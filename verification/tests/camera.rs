use flycam::camera::{Camera, CameraMovement, PITCH_LIMIT};
use flycam::fx::{Fixed, SCALE};
use flycam::vec3::Vec3;

fn fx(raw: i64) -> Fixed {
    Fixed::from_raw(raw)
}

fn v3(x: i64, y: i64, z: i64) -> Vec3 {
    Vec3::new(fx(x), fx(y), fx(z))
}

#[test]
fn default_camera_state() {
    let cam = Camera::new();
    assert_eq!((cam.position.x.raw, cam.position.y.raw, cam.position.z.raw), (0, 0, 0));
    assert_eq!((cam.world_up.x.raw, cam.world_up.y.raw, cam.world_up.z.raw), (0, SCALE, 0));
    assert_eq!(cam.yaw.raw, -90_000_000);
    assert_eq!(cam.pitch.raw, 0);
    assert_eq!(cam.movement_speed.raw, 2_500_000);
    assert_eq!(cam.mouse_sensitivity.raw, 100_000);
    assert_eq!(cam.zoom.raw, 45_000_000);
    assert_eq!((cam.front.x.raw, cam.front.y.raw, cam.front.z.raw), (0, 0, -SCALE));
    assert_eq!((cam.right.x.raw, cam.right.y.raw, cam.right.z.raw), (SCALE, 0, 0));
    assert_eq!((cam.up.x.raw, cam.up.y.raw, cam.up.z.raw), (0, SCALE, 0));
}

#[test]
fn default_view_matrix_is_identity() {
    let cam = Camera::new();
    let m = cam.get_view_matrix();
    assert_eq!((m.c0.x.raw, m.c0.y.raw, m.c0.z.raw, m.c0.w.raw), (SCALE, 0, 0, 0));
    assert_eq!((m.c1.x.raw, m.c1.y.raw, m.c1.z.raw, m.c1.w.raw), (0, SCALE, 0, 0));
    assert_eq!((m.c2.x.raw, m.c2.y.raw, m.c2.z.raw, m.c2.w.raw), (0, 0, SCALE, 0));
    assert_eq!((m.c3.x.raw, m.c3.y.raw, m.c3.z.raw, m.c3.w.raw), (0, 0, 0, SCALE));
}

#[test]
fn view_matrix_translation() {
    let mut cam = Camera::new();
    cam.position = v3(0, 0, 3_000_000);
    let m = cam.get_view_matrix();
    // rotation part unchanged, translation column carries the eye point
    assert_eq!((m.c0.x.raw, m.c1.y.raw, m.c2.z.raw), (SCALE, SCALE, SCALE));
    assert_eq!((m.c3.x.raw, m.c3.y.raw, m.c3.z.raw, m.c3.w.raw), (0, 0, -3_000_000, SCALE));
}

#[test]
fn scroll_scenario_hits_both_bounds() {
    let mut cam = Camera::new();
    cam.process_mouse_scroll(fx(-50_000_000));
    assert_eq!(cam.zoom.raw, 45_000_000);
    cam.process_mouse_scroll(fx(50_000_000));
    assert_eq!(cam.zoom.raw, 1_000_000);
}

#[test]
fn scroll_repeated_stays_within_bounds() {
    let mut cam = Camera::new();
    for _ in 0..5 {
        cam.process_mouse_scroll(fx(50_000_000));
        assert_eq!(cam.zoom.raw, 1_000_000);
    }
    for _ in 0..5 {
        cam.process_mouse_scroll(fx(-50_000_000));
        assert_eq!(cam.zoom.raw, 45_000_000);
    }
}

#[test]
fn scroll_partial_step() {
    let mut cam = Camera::new();
    cam.process_mouse_scroll(fx(10_500_000));
    assert_eq!(cam.zoom.raw, 34_500_000);
    cam.process_mouse_scroll(fx(-3_000_000));
    assert_eq!(cam.zoom.raw, 37_500_000);
}

#[test]
fn keyboard_forward_scenario() {
    let mut cam = Camera::new();
    cam.process_keyboard(CameraMovement::FORWARD, fx(SCALE));
    // position == front * 2.5 with the default front (0, 0, -1)
    assert_eq!(
        (cam.position.x.raw, cam.position.y.raw, cam.position.z.raw),
        (0, 0, -2_500_000)
    );
}

#[test]
fn keyboard_all_directions() {
    let dt = fx(SCALE);
    let mut cam = Camera::new();
    cam.process_keyboard(CameraMovement::BACKWARD, dt);
    assert_eq!((cam.position.x.raw, cam.position.y.raw, cam.position.z.raw), (0, 0, 2_500_000));
    let mut cam = Camera::new();
    cam.process_keyboard(CameraMovement::LEFT, dt);
    assert_eq!((cam.position.x.raw, cam.position.y.raw, cam.position.z.raw), (-2_500_000, 0, 0));
    let mut cam = Camera::new();
    cam.process_keyboard(CameraMovement::RIGHT, dt);
    assert_eq!((cam.position.x.raw, cam.position.y.raw, cam.position.z.raw), (2_500_000, 0, 0));
    let mut cam = Camera::new();
    cam.process_keyboard(CameraMovement::UP, dt);
    assert_eq!((cam.position.x.raw, cam.position.y.raw, cam.position.z.raw), (0, 2_500_000, 0));
    let mut cam = Camera::new();
    cam.process_keyboard(CameraMovement::DOWN, dt);
    assert_eq!((cam.position.x.raw, cam.position.y.raw, cam.position.z.raw), (0, -2_500_000, 0));
}

#[test]
fn up_then_down_restores_position() {
    let mut cam = Camera::new();
    cam.position = v3(1_234_567, -7_654_321, 42);
    let before = (cam.position.x.raw, cam.position.y.raw, cam.position.z.raw);
    let dt = fx(700_000);
    cam.process_keyboard(CameraMovement::UP, dt);
    assert_eq!(cam.position.y.raw, -7_654_321 + 1_750_000);
    cam.process_keyboard(CameraMovement::DOWN, dt);
    assert_eq!((cam.position.x.raw, cam.position.y.raw, cam.position.z.raw), before);
}

#[test]
fn constrained_pitch_clamps_above() {
    let mut cam = Camera::new();
    // 2000 pixels at sensitivity 0.1 ask for 200 degrees of pitch
    cam.process_mouse_movement(fx(0), fx(2_000_000_000), true);
    assert_eq!(cam.pitch.raw, PITCH_LIMIT);
    cam.process_mouse_movement(fx(0), fx(2_000_000_000), true);
    assert_eq!(cam.pitch.raw, PITCH_LIMIT);
}

#[test]
fn constrained_pitch_clamps_below() {
    let mut cam = Camera::new();
    cam.process_mouse_movement(fx(0), fx(-2_000_000_000), true);
    assert_eq!(cam.pitch.raw, -PITCH_LIMIT);
    cam.process_mouse_movement(fx(0), fx(-2_000_000_000), true);
    assert_eq!(cam.pitch.raw, -PITCH_LIMIT);
}

#[test]
fn unconstrained_pitch_accumulates() {
    let mut cam = Camera::new();
    cam.process_mouse_movement(fx(0), fx(2_000_000_000), false);
    assert_eq!(cam.pitch.raw, 200_000_000);
}

#[test]
fn mouse_movement_scales_by_sensitivity() {
    let mut cam = Camera::new();
    // 10 pixels right, 5 pixels up, at sensitivity 0.1
    cam.process_mouse_movement(fx(10_000_000), fx(5_000_000), true);
    assert_eq!(cam.yaw.raw, -89_000_000);
    assert_eq!(cam.pitch.raw, 500_000);
    // the world-up reference never moves
    assert_eq!((cam.world_up.x.raw, cam.world_up.y.raw, cam.world_up.z.raw), (0, SCALE, 0));
}

#[test]
fn quarter_turn_left_faces_negative_x() {
    let mut cam = Camera::new();
    // 900 pixels left at sensitivity 0.1: yaw from -90 to -180 degrees
    cam.process_mouse_movement(fx(-900_000_000), fx(0), true);
    assert_eq!(cam.yaw.raw, -180_000_000);
    assert_eq!((cam.front.x.raw, cam.front.y.raw, cam.front.z.raw), (-SCALE, 0, 0));
    assert_eq!((cam.right.x.raw, cam.right.y.raw, cam.right.z.raw), (0, 0, -SCALE));
    assert_eq!((cam.up.x.raw, cam.up.y.raw, cam.up.z.raw), (0, SCALE, 0));
}

#[test]
fn basis_stays_near_unit_after_odd_angles() {
    let mut cam = Camera::new();
    cam.process_mouse_movement(fx(123_000_000), fx(-47_000_000), true);
    for v in [cam.front, cam.right, cam.up] {
        let n = (v.x.raw as i128) * (v.x.raw as i128) + (v.y.raw as i128) * (v.y.raw as i128)
            + (v.z.raw as i128) * (v.z.raw as i128);
        let unit = (SCALE as i128) * (SCALE as i128);
        // within a percent of unit length
        assert!(n > unit - unit / 100 && n < unit + unit / 100);
        assert!(v.x.raw.abs() <= SCALE && v.y.raw.abs() <= SCALE && v.z.raw.abs() <= SCALE);
    }
}
