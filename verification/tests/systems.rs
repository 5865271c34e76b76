//! Tests of input fusion, movement integration, pose projection and gamepad
//! connection handling.

use flycam::components::DebugCamera;
use flycam::connections::{gamepad_connections, GamepadDiag, GamepadEvent};
use flycam::fixed::SCALE;
use flycam::fusion::{
    buttons_to_dir, fuse_input, AxisSample, GamepadSnapshot, InputIntent, KeySnapshot, MouseDelta,
};
use flycam::integrate::{basis_valid, camera_movement, camera_update_system, orthonormalize};
use flycam::resources::{ActiveGamepad, DebugCameraActive, GamepadBindings, KeyboardBindings};
use flycam::vec3::Vec3Fx;

fn to_f(v: i64) -> f64 {
    v as f64 / SCALE as f64
}

fn fx(x: f64) -> i64 {
    (x * SCALE as f64).round() as i64
}

fn v(x: i64, y: i64, z: i64) -> Vec3Fx {
    Vec3Fx { x, y, z }
}

fn default_camera() -> DebugCamera {
    DebugCamera::default()
}

fn zero_intent() -> InputIntent {
    InputIntent { translate: v(0, 0, 0), rotate: v(0, 0, 0) }
}

fn active_both() -> DebugCameraActive {
    DebugCameraActive::default()
}

fn full_snapshot(gb: &GamepadBindings) -> GamepadSnapshot {
    GamepadSnapshot {
        axes: vec![
            AxisSample { code: gb.left_right, value: fx(0.25) },
            AxisSample { code: gb.fwd_bwd, value: fx(0.5) },
            AxisSample { code: gb.yaw, value: fx(-0.5) },
            AxisSample { code: gb.pitch, value: fx(0.75) },
        ],
        button_axes: vec![
            AxisSample { code: gb.up, value: fx(1.0) },
            AxisSample { code: gb.down, value: fx(0.25) },
        ],
        pressed: vec![gb.roll_right],
    }
}

#[test]
fn signed_direction_helper() {
    assert_eq!(buttons_to_dir(true, false), SCALE);
    assert_eq!(buttons_to_dir(false, true), -SCALE);
    assert_eq!(buttons_to_dir(true, true), 0);
    assert_eq!(buttons_to_dir(false, false), 0);
}

// Zero intent leaves the position untouched and forward/up exactly equal to
// the orthonormalized correction of their old values.
#[test]
fn zero_intent_noop() {
    let mut cam = default_camera();
    cam.fwd = v(fx(1.0), fx(0.3), fx(-0.2));
    cam.up = v(fx(0.1), fx(1.0), fx(0.25));
    cam.position = v(fx(7.0), fx(-3.0), fx(0.5));
    let (f2, u2, _) = orthonormalize(&cam.fwd, &cam.up);
    let before = cam.position;
    camera_movement(&mut cam, &zero_intent());
    assert_eq!(cam.position, before);
    assert_eq!(cam.fwd, f2);
    assert_eq!(cam.up, u2);
}

// Pure forward translation intent of 1.0 with speed 100 moves the camera by
// exactly 100 units along forward.
#[test]
fn forward_translation_scenario() {
    let mut cam = default_camera();
    assert_eq!(cam.speed_translate, 100 * SCALE);
    let intent = InputIntent { translate: v(SCALE, 0, 0), rotate: v(0, 0, 0) };
    camera_movement(&mut cam, &intent);
    assert_eq!(cam.position, v(100 * SCALE, 0, 0));
    assert_eq!(cam.fwd, v(SCALE, 0, 0));
    assert_eq!(cam.up, v(0, SCALE, 0));
}

// Yaw by pi/4 about up: forward swings to (cos, 0, -sin) and up is untouched
// by the yaw step; after the next frame's correction the basis stays unit
// length.
#[test]
fn yaw_quarter_pi_scenario() {
    let mut cam = default_camera();
    assert_eq!(cam.speed_rotate, fx(std::f64::consts::FRAC_PI_4));
    let intent = InputIntent { translate: v(0, 0, 0), rotate: v(SCALE, 0, 0) };
    camera_movement(&mut cam, &intent);
    let c = std::f64::consts::FRAC_PI_4.cos();
    let s = std::f64::consts::FRAC_PI_4.sin();
    assert!((to_f(cam.fwd.x) - c).abs() < 1e-5, "fwd.x {}", to_f(cam.fwd.x));
    assert_eq!(cam.fwd.y, 0);
    assert!((to_f(cam.fwd.z) + s).abs() < 1e-5, "fwd.z {}", to_f(cam.fwd.z));
    assert_eq!(cam.up, v(0, SCALE, 0));
    // next frame: zero intent re-orthonormalizes; still unit length
    camera_movement(&mut cam, &zero_intent());
    let nf = (to_f(cam.fwd.x).powi(2) + to_f(cam.fwd.y).powi(2) + to_f(cam.fwd.z).powi(2)).sqrt();
    let nu = (to_f(cam.up.x).powi(2) + to_f(cam.up.y).powi(2) + to_f(cam.up.z).powi(2)).sqrt();
    assert!((nf - 1.0).abs() < 1e-3);
    assert!((nu - 1.0).abs() < 1e-3);
}

// With both device classes active the fused intent is exactly the sum of the
// gamepad-only and keyboard+mouse-only intents.
#[test]
fn device_fusion_additivity() {
    let kb = KeyboardBindings::default();
    let gb = GamepadBindings::default();
    let keys = KeySnapshot { pressed: vec![kb.fwd, kb.roll_right, kb.left] };
    let mouse = vec![MouseDelta { x: fx(0.1), y: fx(-0.2) }, MouseDelta { x: fx(0.05), y: 0 }];
    let pad = Some(full_snapshot(&gb));
    let dt = SCALE;  // one second
    let both = fuse_input(&active_both(), &kb, &gb, &keys, &mouse, &pad, dt);
    let km_only = DebugCameraActive { keymouse: true, gamepad: false, esc_toggled: false };
    let gp_only = DebugCameraActive { keymouse: false, gamepad: true, esc_toggled: false };
    let km = fuse_input(&km_only, &kb, &gb, &keys, &mouse, &pad, dt);
    let gp = fuse_input(&gp_only, &kb, &gb, &keys, &mouse, &pad, dt);
    assert_eq!(both.translate.x, gp.translate.x + km.translate.x);
    assert_eq!(both.translate.y, gp.translate.y + km.translate.y);
    assert_eq!(both.translate.z, gp.translate.z + km.translate.z);
    assert_eq!(both.rotate.x, gp.rotate.x + km.rotate.x);
    assert_eq!(both.rotate.y, gp.rotate.y + km.rotate.y);
    assert_eq!(both.rotate.z, gp.rotate.z + km.rotate.z);
}

#[test]
fn fusion_values() {
    let kb = KeyboardBindings::default();
    let gb = GamepadBindings::default();
    let keys = KeySnapshot { pressed: vec![kb.fwd] };
    let mouse = vec![MouseDelta { x: fx(2.0), y: fx(-1.0) }];
    let pad = Some(full_snapshot(&gb));
    let dt = SCALE;
    let intent = fuse_input(&active_both(), &kb, &gb, &keys, &mouse, &pad, dt);
    // gamepad: fwd_bwd 0.5; keyboard fwd key at 0.5 damping: +0.5
    assert_eq!(intent.translate.x, fx(0.5) + fx(0.5));
    // gamepad vertical: up 1.0 - down 0.25
    assert_eq!(intent.translate.y, fx(0.75));
    // gamepad left_right 0.25
    assert_eq!(intent.translate.z, fx(0.25));
    // yaw: gamepad -(-0.5) plus mouse -2.0 * 0.5
    assert_eq!(intent.rotate.x, fx(0.5) + fx(-1.0));
    // pitch: gamepad 0.75 plus mouse 1.0 * 0.5
    assert_eq!(intent.rotate.y, fx(0.75) + fx(0.5));
    // roll: gamepad roll_right held
    assert_eq!(intent.rotate.z, SCALE);
}

#[test]
fn neither_class_active_yields_zero_intent() {
    let kb = KeyboardBindings::default();
    let gb = GamepadBindings::default();
    let keys = KeySnapshot { pressed: vec![kb.fwd] };
    let mouse = vec![MouseDelta { x: fx(2.0), y: fx(-1.0) }];
    let pad = Some(full_snapshot(&gb));
    let off = DebugCameraActive { keymouse: false, gamepad: false, esc_toggled: false };
    let intent = fuse_input(&off, &kb, &gb, &keys, &mouse, &pad, SCALE);
    assert_eq!(intent, zero_intent());
}

// A gamepad class that is active while no device is selected simply
// contributes nothing.
#[test]
fn gamepad_active_without_device() {
    let kb = KeyboardBindings::default();
    let gb = GamepadBindings::default();
    let keys = KeySnapshot { pressed: vec![kb.fwd] };
    let mouse: Vec<MouseDelta> = vec![];
    let intent = fuse_input(&active_both(), &kb, &gb, &keys, &mouse, &None, SCALE);
    assert_eq!(intent.translate.x, fx(0.5));
    assert_eq!(intent.translate.y, 0);
    assert_eq!(intent.rotate, v(0, 0, 0));
}

// A configured axis absent from the snapshot drops that whole contribution
// rather than zero-filling it.
#[test]
fn missing_axis_drops_contribution() {
    let kb = KeyboardBindings::default();
    let gb = GamepadBindings::default();
    let keys = KeySnapshot { pressed: vec![] };
    let mouse: Vec<MouseDelta> = vec![];
    let mut snap = full_snapshot(&gb);
    snap.axes.retain(|s| s.code != gb.fwd_bwd);
    let intent = fuse_input(&active_both(), &kb, &gb, &keys, &mouse, &Some(snap), SCALE);
    assert_eq!(intent.translate, v(0, 0, 0));
    // rotation axes are still present
    assert_eq!(intent.rotate.x, fx(0.5));
}

// Active device id 3; a disconnect event for id 7 arrives: the selection
// stays Some(3) and no diagnostic fires.
#[test]
fn disconnect_ignored_scenario() {
    let mut active = ActiveGamepad(Some(3));
    let diags = gamepad_connections(&mut active, vec![GamepadEvent::Disconnected { id: 7 }]);
    assert_eq!(active.0, Some(3));
    assert!(diags.is_empty());
}

#[test]
fn first_connected_wins_and_release() {
    let mut active = ActiveGamepad::default();
    assert_eq!(active.0, None);
    let events = vec![
        GamepadEvent::Connected { id: 1, name: String::from("alpha") },
        GamepadEvent::Connected { id: 2, name: String::from("beta") },
        GamepadEvent::Disconnected { id: 2 },
        GamepadEvent::Disconnected { id: 1 },
        GamepadEvent::Connected { id: 3, name: String::from("gamma") },
    ];
    let diags = gamepad_connections(&mut active, events);
    assert_eq!(active.0, Some(3));
    assert_eq!(diags.len(), 3);
    assert!(matches!(&diags[0], GamepadDiag::Selected { id: 1, name } if name == "alpha"));
    assert!(matches!(&diags[1], GamepadDiag::Cleared { id: 1 }));
    assert!(matches!(&diags[2], GamepadDiag::Selected { id: 3, name } if name == "gamma"));
}

#[test]
fn pose_projection() {
    let mut cam = default_camera();
    cam.position = v(fx(-5.0), fx(1.0), 0);
    let t = camera_update_system(&cam, &active_both()).unwrap();
    assert_eq!(t.eye, cam.position);
    assert_eq!(t.target, v(fx(-5.0) + SCALE, fx(1.0), 0));
    assert_eq!(t.up, v(0, SCALE, 0));
    let off = DebugCameraActive { keymouse: false, gamepad: false, esc_toggled: false };
    assert!(camera_update_system(&cam, &off).is_none());
}

#[test]
fn basis_validation() {
    let good_f = v(SCALE, 0, 0);
    let good_u = v(0, SCALE, 0);
    assert!(basis_valid(&good_f, &good_u));
    // colinear
    assert!(!basis_valid(&good_f, &v(2 * SCALE, 0, 0)));
    // zero vector
    assert!(!basis_valid(&v(0, 0, 0), &good_u));
}

#[test]
fn default_bindings_and_flags() {
    let act = DebugCameraActive::default();
    assert!(act.keymouse && act.gamepad);
    let kb = KeyboardBindings::default();
    assert_eq!(kb.fwd, 17);
    assert_eq!(kb.bwd, 31);
    let gb = GamepadBindings::default();
    assert_eq!(gb.fwd_bwd, 1);
    assert_eq!(gb.left_right, 0);
    let cam = DebugCamera::default();
    assert_eq!(cam.fwd, v(SCALE, 0, 0));
    assert_eq!(cam.up, v(0, SCALE, 0));
    assert_eq!(cam.position, v(0, 0, 0));
}
