use rustedcraft::camera::{Camera, Heading};
use rustedcraft::config::{MOUSE_SPEED, PITCH_LIMIT, SPEED, START_YAW};
use rustedcraft::fixed::ONE;
use rustedcraft::input::{Action, InputDatas, Key};
use rustedcraft::mat::Mat4;
use rustedcraft::vec::{Vec2, Vec3};

fn window() -> Vec2 {
    Vec2::new(1024 * ONE, 768 * ONE)
}

fn centered(keys: Vec<(Action, Key)>) -> InputDatas {
    InputDatas { keys, mouse_position: Vec2::new(512 * ONE, 384 * ONE) }
}

fn facing_minus_z() -> Heading {
    Heading { forward: Vec3::new(0, 0, -ONE), right: Vec3::new(ONE, 0, 0) }
}

#[test]
fn camera_starts_at_documented_state() {
    let cam = Camera::new(window());
    assert_eq!(cam.position, Vec3::new(0, 0, 5 * ONE));
    assert_eq!(cam.h_angle, START_YAW);
    assert_eq!(cam.v_angle, 0);
    let view = Mat4::look_at(&Vec3::new(0, 0, 5 * ONE), &Vec3::new(0, 0, 0), &Vec3::new(0, ONE, 0));
    assert_eq!(cam.mat_view, view);
    assert_eq!(cam.get_mat(), Some(cam.mat_projection.cross_product(&cam.mat_view)));
}

#[test]
fn idle_frames_keep_camera_still() {
    let mut cam = Camera::new(window());
    let start = cam;
    let input = centered(vec![]);
    for _ in 0..10 {
        cam.turn(&input.mouse_position, ONE / 60);
        cam.update(&input, ONE / 60, &facing_minus_z());
    }
    assert_eq!(cam.position, start.position);
    assert_eq!(cam.h_angle, start.h_angle);
    assert_eq!(cam.v_angle, start.v_angle);
}

#[test]
fn forward_key_accumulates_displacement() {
    let mut cam = Camera::new(window());
    let input = centered(vec![(Action::Press, Key::W)]);
    let dt = 1092;
    let frames = 30;
    for _ in 0..frames {
        cam.turn(&input.mouse_position, dt);
        cam.update(&input, dt, &facing_minus_z());
    }
    // one frame moves by speed · dt along the forward direction
    let step = ((-ONE as i64 * dt as i64) / ONE as i64 * SPEED as i64) / ONE as i64;
    assert_eq!(step, -10920);
    assert_eq!(cam.position, Vec3::new(0, 0, 5 * ONE + frames * step as i32));
    let view = Mat4::look_at(&cam.position, &cam.position.add_vec(&Vec3::new(0, 0, -ONE)), &Vec3::new(0, ONE, 0));
    assert_eq!(cam.mat_view, view);
}

#[test]
fn simultaneous_keys_each_apply() {
    let mut cam = Camera::new(window());
    let input = centered(vec![
        (Action::Press, Key::W),
        (Action::Press, Key::D),
        (Action::Release, Key::S),
        (Action::Press, Key::Other),
    ]);
    cam.update(&input, ONE, &facing_minus_z());
    assert_eq!(cam.position, Vec3::new(10 * ONE, 0, -5 * ONE));
}

#[test]
fn backward_and_left_keys_reverse() {
    let mut cam = Camera::new(window());
    let input = centered(vec![(Action::Press, Key::S), (Action::Press, Key::A)]);
    cam.update(&input, ONE / 2, &facing_minus_z());
    assert_eq!(cam.position, Vec3::new(-5 * ONE, 0, 10 * ONE));
}

#[test]
fn turn_follows_pointer_offset() {
    let mut cam = Camera::new(window());
    let mouse = Vec2::new(412 * ONE, 394 * ONE);
    cam.turn(&mouse, ONE);
    assert_eq!(cam.h_angle, START_YAW + MOUSE_SPEED * 100);
    assert_eq!(cam.v_angle, -MOUSE_SPEED * 10);
}

#[test]
fn pitch_is_clamped_short_of_the_poles() {
    let mut cam = Camera::new(window());
    cam.turn(&Vec2::new(512 * ONE, 0), 10 * ONE);
    assert_eq!(cam.v_angle, PITCH_LIMIT);
    cam.turn(&Vec2::new(512 * ONE, 768 * ONE), 30 * ONE);
    assert_eq!(cam.v_angle, -PITCH_LIMIT);
}

#[test]
fn degenerate_heading_keeps_previous_view() {
    let mut cam = Camera::new(window());
    let before = cam.mat_view;
    let up = Heading { forward: Vec3::new(0, ONE, 0), right: Vec3::new(ONE, 0, 0) };
    cam.update(&centered(vec![]), ONE / 60, &up);
    assert_eq!(cam.mat_view, before);
}
