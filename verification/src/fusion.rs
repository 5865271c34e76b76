//! Per-frame input fusion.
//!
//! Raw device snapshots (key and button pressed-states, axis values, queued
//! mouse-motion deltas) are combined into one [`InputIntent`]: a local-frame
//! translation and rotation, already scaled by elapsed time and fused across
//! the two device classes. The gamepad contributes first, then keyboard and
//! mouse add on top, damped by a fixed one-half factor so that combined use
//! stays comparable in magnitude.

use vstd::prelude::*;

use crate::fixed::{abs_int, fx_mul, fx_mul_exec, lemma_fx_mul_bound};
use crate::resources::{DebugCameraActive, GamepadBindings, KeyboardBindings};
use crate::vec3::{add_exec, v_add, v_bounded, v_zero, Vec3Fx, Vec3i};

verus! {

/// One sampled axis: the host's axis identifier and its fixed-point value.
#[derive(Clone, Copy, Debug, PartialEq, Eq, Structural)]
pub struct AxisSample {
    pub code: u32,
    pub value: i64,
}

/// Pressed-state snapshot of a keyboard: the codes of all held keys.
#[derive(Clone, Debug)]
pub struct KeySnapshot {
    pub pressed: Vec<u32>,
}

/// One queued mouse-motion event: a fixed-point 2d delta.
#[derive(Clone, Copy, Debug, PartialEq, Eq, Structural)]
pub struct MouseDelta {
    pub x: i64,
    pub y: i64,
}

/// Frame snapshot of the selected gamepad: sampled stick axes, trigger-style
/// button axes, and the codes of all held digital buttons.
#[derive(Clone, Debug)]
pub struct GamepadSnapshot {
    pub axes: Vec<AxisSample>,
    pub button_axes: Vec<AxisSample>,
    pub pressed: Vec<u32>,
}

/// One frame's fused motion intent, in the camera's local frame.
///
/// Translation components: x along forward, y along up, z along right.
/// Rotation components: x yaw about up, y pitch about right, z roll about
/// forward. Both are already scaled by elapsed time.
#[derive(Clone, Copy, Debug, PartialEq, Eq, Structural)]
pub struct InputIntent {
    pub translate: Vec3Fx,
    pub rotate: Vec3Fx,
}

/// Signed direction of a pair of opposing digital inputs: plus one (fixed
/// point) if only the positive input is held, minus one if only the negative
/// input is held, zero if both or neither.
pub open spec fn spec_dir(positive: bool, negative: bool) -> int {
    if positive == negative {
        0
    } else if positive {
        65536
    } else {
        -65536
    }
}

/// Signed direction of a pair of opposing digital inputs.
pub fn buttons_to_dir(positive: bool, negative: bool) -> (r: i64)
    ensures
        r as int == spec_dir(positive, negative),
{
    if positive == negative {
        0
    } else if positive {
        65536
    } else {
        -65536
    }
}

/// Value of the first sample carrying the given code, if any.
pub open spec fn spec_lookup(s: Seq<AxisSample>, code: u32) -> Option<int>
    decreases s.len(),
{
    if s.len() == 0 {
        None
    } else if s[0].code == code {
        Some(s[0].value as int)
    } else {
        spec_lookup(s.drop_first(), code)
    }
}

/// View of an optional fixed-point scalar.
pub open spec fn view_opt(o: Option<i64>) -> Option<int> {
    match o {
        Some(v) => Some(v as int),
        None => None,
    }
}

/// Every sampled value in the sequence has magnitude at most sixteen
/// full-scale units (a machine bound that keeps scaled products small).
pub open spec fn samples_ok(s: Seq<AxisSample>) -> bool {
    forall|i: int| 0 <= i < s.len() ==> abs_int(s[i].value as int) <= 1048576
}

/// Bound on every sample, and on the number of queued events, of a mouse
/// motion queue.
pub open spec fn mouse_ok(s: Seq<MouseDelta>) -> bool {
    &&& s.len() <= 4096
    &&& forall|i: int|
        0 <= i < s.len() ==> abs_int(s[i].x as int) <= 1048576 && abs_int(s[i].y as int) <= 1048576
}

/// Bound on every sampled axis of an optional gamepad snapshot.
pub open spec fn pad_ok(pad: Option<GamepadSnapshot>) -> bool {
    match pad {
        Some(p) => samples_ok(p.axes@) && samples_ok(p.button_axes@),
        None => true,
    }
}

/// A lookup in a bounded sample sequence returns a bounded value.
proof fn lemma_lookup_bounded(s: Seq<AxisSample>, code: u32, m: int)
    requires
        forall|i: int| 0 <= i < s.len() ==> abs_int(s[i].value as int) <= m,
    ensures
        match spec_lookup(s, code) {
            Some(v) => abs_int(v) <= m,
            None => true,
        },
    decreases s.len(),
{
    if s.len() == 0 {
    } else if s[0].code == code {
    } else {
        lemma_lookup_bounded(s.drop_first(), code, m);
    }
}

/// Accumulated mouse motion, sign-inverted: motion right or down maps to
/// negative intent.
pub open spec fn mouse_sum_x(s: Seq<MouseDelta>) -> int
    decreases s.len(),
{
    if s.len() == 0 {
        0
    } else {
        mouse_sum_x(s.drop_last()) - s.last().x
    }
}

/// Accumulated vertical mouse motion, sign-inverted.
pub open spec fn mouse_sum_y(s: Seq<MouseDelta>) -> int
    decreases s.len(),
{
    if s.len() == 0 {
        0
    } else {
        mouse_sum_y(s.drop_last()) - s.last().y
    }
}

/// Gamepad translation contribution: forward/back and left/right from two
/// bipolar stick axes, vertical from the difference of the two trigger axes,
/// all scaled by elapsed time. Contributes only if all four configured axes
/// are present in the snapshot.
pub open spec fn spec_pad_translate(gb: GamepadBindings, pad: GamepadSnapshot, dt: int) -> Vec3i {
    match (
        spec_lookup(pad.axes@, gb.left_right),
        spec_lookup(pad.axes@, gb.fwd_bwd),
        spec_lookup(pad.button_axes@, gb.down),
        spec_lookup(pad.button_axes@, gb.up),
    ) {
        (Some(lr), Some(fb), Some(dn), Some(upv)) => Vec3i {
            x: fx_mul(dt, fb),
            y: fx_mul(dt, upv - dn),
            z: fx_mul(dt, lr),
        },
        _ => v_zero(),
    }
}

/// Gamepad rotation contribution: yaw (sign-inverted) and pitch from two
/// bipolar stick axes, roll from the two digital roll buttons, all scaled by
/// elapsed time. Contributes only if both configured stick axes are present.
pub open spec fn spec_pad_rotate(gb: GamepadBindings, pad: GamepadSnapshot, dt: int) -> Vec3i {
    match (spec_lookup(pad.axes@, gb.yaw), spec_lookup(pad.axes@, gb.pitch)) {
        (Some(yaw), Some(pitch)) => Vec3i {
            x: fx_mul(dt, -yaw),
            y: fx_mul(dt, pitch),
            z: fx_mul(dt, spec_dir(pad.pressed@.contains(gb.roll_right), pad.pressed@.contains(gb.roll_left))),
        },
        _ => v_zero(),
    }
}

/// Keyboard translation contribution: three signed key pairs, scaled by the
/// damped elapsed time.
pub open spec fn spec_key_translate(kb: KeyboardBindings, keys: Seq<u32>, half_dt: int) -> Vec3i {
    Vec3i {
        x: fx_mul(half_dt, spec_dir(keys.contains(kb.fwd), keys.contains(kb.bwd))),
        y: fx_mul(half_dt, spec_dir(keys.contains(kb.up), keys.contains(kb.down))),
        z: fx_mul(half_dt, spec_dir(keys.contains(kb.right), keys.contains(kb.left))),
    }
}

/// Keyboard and mouse rotation contribution: yaw and pitch from the
/// accumulated mouse motion, roll from a signed key pair, scaled by the
/// damped elapsed time.
pub open spec fn spec_key_rotate(
    kb: KeyboardBindings,
    keys: Seq<u32>,
    mouse: Seq<MouseDelta>,
    half_dt: int,
) -> Vec3i {
    Vec3i {
        x: fx_mul(half_dt, mouse_sum_x(mouse)),
        y: fx_mul(half_dt, mouse_sum_y(mouse)),
        z: fx_mul(half_dt, spec_dir(keys.contains(kb.roll_right), keys.contains(kb.roll_left))),
    }
}

/// One frame's fused intent: the gamepad contribution (if that class is
/// active and a device is selected) plus the keyboard and mouse contribution
/// (if that class is active), the latter damped by one half.
pub open spec fn spec_fuse(
    active: DebugCameraActive,
    kb: KeyboardBindings,
    gb: GamepadBindings,
    keys: KeySnapshot,
    mouse: Seq<MouseDelta>,
    pad: Option<GamepadSnapshot>,
    dt: int,
) -> (Vec3i, Vec3i) {
    if !active.gamepad && !active.keymouse {
        (v_zero(), v_zero())
    } else {
        let pt = match pad {
            Some(p) => if active.gamepad {
                spec_pad_translate(gb, p, dt)
            } else {
                v_zero()
            },
            None => v_zero(),
        };
        let pr = match pad {
            Some(p) => if active.gamepad {
                spec_pad_rotate(gb, p, dt)
            } else {
                v_zero()
            },
            None => v_zero(),
        };
        let half_dt = fx_mul(dt, 32768);
        let kt = if active.keymouse {
            spec_key_translate(kb, keys.pressed@, half_dt)
        } else {
            v_zero()
        };
        let kr = if active.keymouse {
            spec_key_rotate(kb, keys.pressed@, mouse, half_dt)
        } else {
            v_zero()
        };
        (v_add(pt, kt), v_add(pr, kr))
    }
}

/// Device fusion is additive: with both device classes active, the fused
/// intent is the sum, component by component, of the gamepad-only intent and
/// the keyboard+mouse-only intent computed independently.
pub proof fn lemma_fusion_additive(
    esc: bool,
    kb: KeyboardBindings,
    gb: GamepadBindings,
    keys: KeySnapshot,
    mouse: Seq<MouseDelta>,
    pad: Option<GamepadSnapshot>,
    dt: int,
)
    ensures
        ({
            let both = spec_fuse(
                DebugCameraActive { keymouse: true, gamepad: true, esc_toggled: esc },
                kb, gb, keys, mouse, pad, dt,
            );
            let km = spec_fuse(
                DebugCameraActive { keymouse: true, gamepad: false, esc_toggled: esc },
                kb, gb, keys, mouse, pad, dt,
            );
            let gp = spec_fuse(
                DebugCameraActive { keymouse: false, gamepad: true, esc_toggled: esc },
                kb, gb, keys, mouse, pad, dt,
            );
            both.0 == v_add(gp.0, km.0) && both.1 == v_add(gp.1, km.1)
        }),
{
}

/// Value of the first sample carrying the given axis or button code, if any.
pub fn axis_value(samples: &Vec<AxisSample>, code: u32) -> (r: Option<i64>)
    ensures
        view_opt(r) == spec_lookup(samples@, code),
{
    let mut i: usize = 0;
    proof {
        assert(samples@.skip(0) =~= samples@);
    }
    while i < samples.len()
        invariant
            i <= samples@.len(),
            spec_lookup(samples@, code) == spec_lookup(samples@.skip(i as int), code),
        decreases samples@.len() - i,
    {
        if samples[i].code == code {
            proof {
                assert(samples@.skip(i as int)[0] == samples@[i as int]);
            }
            return Some(samples[i].value);
        }
        proof {
            assert(samples@.skip(i as int).drop_first() =~= samples@.skip(i as int + 1));
        }
        i = i + 1;
    }
    None
}

/// Whether the given key or button code is held in the snapshot.
pub fn pressed(codes: &Vec<u32>, code: u32) -> (r: bool)
    ensures
        r == codes@.contains(code),
{
    let mut i: usize = 0;
    while i < codes.len()
        invariant
            i <= codes@.len(),
            forall|j: int| 0 <= j < i ==> codes@[j] != code,
        decreases codes@.len() - i,
    {
        if codes[i] == code {
            return true;
        }
        i = i + 1;
    }
    false
}

/// Drains the mouse motion queue into one accumulated, sign-inverted delta.
fn accumulate_mouse(mouse: &Vec<MouseDelta>) -> (r: (i64, i64))
    requires
        mouse_ok(mouse@),
    ensures
        r.0 as int == mouse_sum_x(mouse@),
        r.1 as int == mouse_sum_y(mouse@),
        abs_int(r.0 as int) <= 4294967296,
        abs_int(r.1 as int) <= 4294967296,
{
    let mut dx: i64 = 0;
    let mut dy: i64 = 0;
    let mut i: usize = 0;
    while i < mouse.len()
        invariant
            i <= mouse@.len(),
            mouse_ok(mouse@),
            dx as int == mouse_sum_x(mouse@.take(i as int)),
            dy as int == mouse_sum_y(mouse@.take(i as int)),
            abs_int(dx as int) <= (i as int) * 1048576,
            abs_int(dy as int) <= (i as int) * 1048576,
        decreases mouse@.len() - i,
    {
        proof {
            assert(mouse@.take(i as int + 1).drop_last() =~= mouse@.take(i as int));
            assert(mouse@.take(i as int + 1).last() == mouse@[i as int]);
        }
        dx = dx - mouse[i].x;
        dy = dy - mouse[i].y;
        i = i + 1;
    }
    proof {
        assert(mouse@.take(mouse@.len() as int) =~= mouse@);
    }
    (dx, dy)
}


/// Gamepad translation contribution of one frame.
fn pad_translate_exec(gb: &GamepadBindings, snap: &GamepadSnapshot, dt: i64) -> (r: Vec3Fx)
    requires
        0 <= dt <= 1048576,
        samples_ok(snap.axes@),
        samples_ok(snap.button_axes@),
    ensures
        r@ == spec_pad_translate(*gb, *snap, dt as int),
        v_bounded(r@, 33554432),
{
    let lr = axis_value(&snap.axes, gb.left_right);
    let fb = axis_value(&snap.axes, gb.fwd_bwd);
    let dn = axis_value(&snap.button_axes, gb.down);
    let upv = axis_value(&snap.button_axes, gb.up);
    proof {
        lemma_lookup_bounded(snap.axes@, gb.left_right, 1048576);
        lemma_lookup_bounded(snap.axes@, gb.fwd_bwd, 1048576);
        lemma_lookup_bounded(snap.button_axes@, gb.down, 1048576);
        lemma_lookup_bounded(snap.button_axes@, gb.up, 1048576);
    }
    if lr.is_some() && fb.is_some() && dn.is_some() && upv.is_some() {
        let lrv = lr.unwrap();
        let fbv = fb.unwrap();
        let dnv = dn.unwrap();
        let upvv = upv.unwrap();
        proof {
            lemma_fx_mul_bound(dt as int, fbv as int, 1048576, 1048576);
            lemma_fx_mul_bound(dt as int, upvv as int - dnv as int, 1048576, 2097152);
            lemma_fx_mul_bound(dt as int, lrv as int, 1048576, 1048576);
        }
        Vec3Fx { x: fx_mul_exec(dt, fbv), y: fx_mul_exec(dt, upvv - dnv), z: fx_mul_exec(dt, lrv) }
    } else {
        Vec3Fx { x: 0, y: 0, z: 0 }
    }
}

/// Gamepad rotation contribution of one frame.
fn pad_rotate_exec(gb: &GamepadBindings, snap: &GamepadSnapshot, dt: i64) -> (r: Vec3Fx)
    requires
        0 <= dt <= 1048576,
        samples_ok(snap.axes@),
    ensures
        r@ == spec_pad_rotate(*gb, *snap, dt as int),
        v_bounded(r@, 33554432),
{
    let yaw = axis_value(&snap.axes, gb.yaw);
    let pitch = axis_value(&snap.axes, gb.pitch);
    proof {
        lemma_lookup_bounded(snap.axes@, gb.yaw, 1048576);
        lemma_lookup_bounded(snap.axes@, gb.pitch, 1048576);
    }
    if yaw.is_some() && pitch.is_some() {
        let yv = yaw.unwrap();
        let pv = pitch.unwrap();
        let roll = buttons_to_dir(
            pressed(&snap.pressed, gb.roll_right),
            pressed(&snap.pressed, gb.roll_left),
        );
        proof {
            lemma_fx_mul_bound(dt as int, -(yv as int), 1048576, 1048576);
            lemma_fx_mul_bound(dt as int, pv as int, 1048576, 1048576);
            lemma_fx_mul_bound(dt as int, roll as int, 1048576, 65536);
        }
        Vec3Fx { x: fx_mul_exec(dt, -yv), y: fx_mul_exec(dt, pv), z: fx_mul_exec(dt, roll) }
    } else {
        Vec3Fx { x: 0, y: 0, z: 0 }
    }
}

/// Keyboard translation contribution of one frame.
fn key_translate_exec(kb: &KeyboardBindings, keys: &KeySnapshot, half_dt: i64) -> (r: Vec3Fx)
    requires
        0 <= half_dt <= 524288,
    ensures
        r@ == spec_key_translate(*kb, keys.pressed@, half_dt as int),
        v_bounded(r@, 524288),
{
    let dx = buttons_to_dir(pressed(&keys.pressed, kb.fwd), pressed(&keys.pressed, kb.bwd));
    let dy = buttons_to_dir(pressed(&keys.pressed, kb.up), pressed(&keys.pressed, kb.down));
    let dz = buttons_to_dir(pressed(&keys.pressed, kb.right), pressed(&keys.pressed, kb.left));
    proof {
        lemma_fx_mul_bound(half_dt as int, dx as int, 524288, 65536);
        lemma_fx_mul_bound(half_dt as int, dy as int, 524288, 65536);
        lemma_fx_mul_bound(half_dt as int, dz as int, 524288, 65536);
    }
    Vec3Fx { x: fx_mul_exec(half_dt, dx), y: fx_mul_exec(half_dt, dy), z: fx_mul_exec(half_dt, dz) }
}

/// Keyboard and mouse rotation contribution of one frame.
fn key_rotate_exec(
    kb: &KeyboardBindings,
    keys: &KeySnapshot,
    mouse: &Vec<MouseDelta>,
    half_dt: i64,
) -> (r: Vec3Fx)
    requires
        0 <= half_dt <= 524288,
        mouse_ok(mouse@),
    ensures
        r@ == spec_key_rotate(*kb, keys.pressed@, mouse@, half_dt as int),
        v_bounded(r@, 34359738368),
{
    let md = accumulate_mouse(mouse);
    let dz = buttons_to_dir(
        pressed(&keys.pressed, kb.roll_right),
        pressed(&keys.pressed, kb.roll_left),
    );
    proof {
        lemma_fx_mul_bound(half_dt as int, md.0 as int, 524288, 4294967296);
        lemma_fx_mul_bound(half_dt as int, md.1 as int, 524288, 4294967296);
        lemma_fx_mul_bound(half_dt as int, dz as int, 524288, 65536);
    }
    Vec3Fx { x: fx_mul_exec(half_dt, md.0), y: fx_mul_exec(half_dt, md.1), z: fx_mul_exec(half_dt, dz) }
}

/// Fuses one frame's device snapshots into a single motion intent.
///
/// If neither device class is active the intent is zero. Otherwise the
/// gamepad contributes first (if its class is active and a snapshot of the
/// selected device is present), and the keyboard and mouse add on top (if
/// their class is active), damped by one half. All contributions are scaled
/// by the elapsed frame time `dt` (fixed-point seconds).
#[verifier::rlimit(60)]
pub fn fuse_input(
    active: &DebugCameraActive,
    kb: &KeyboardBindings,
    gb: &GamepadBindings,
    keys: &KeySnapshot,
    mouse: &Vec<MouseDelta>,
    pad: &Option<GamepadSnapshot>,
    dt: i64,
) -> (intent: InputIntent)
    requires
        0 <= dt <= 1048576,
        mouse_ok(mouse@),
        pad_ok(*pad),
    ensures
        intent.translate@ == spec_fuse(*active, *kb, *gb, *keys, mouse@, *pad, dt as int).0,
        intent.rotate@ == spec_fuse(*active, *kb, *gb, *keys, mouse@, *pad, dt as int).1,
        v_bounded(intent.translate@, 68719476736),
        v_bounded(intent.rotate@, 68719476736),
{
    if !(active.gamepad || active.keymouse) {
        return InputIntent {
            translate: Vec3Fx { x: 0, y: 0, z: 0 },
            rotate: Vec3Fx { x: 0, y: 0, z: 0 },
        };
    }
    let mut translate = Vec3Fx { x: 0, y: 0, z: 0 };
    let mut rotate = Vec3Fx { x: 0, y: 0, z: 0 };
    if active.gamepad {
        match pad {
            Some(snap) => {
                translate = pad_translate_exec(gb, snap, dt);
                rotate = pad_rotate_exec(gb, snap, dt);
            },
            None => {},
        }
    }
    if active.keymouse {
        proof {
            lemma_fx_mul_bound(dt as int, 32768, 1048576, 32768);
        }
        let half_dt = fx_mul_exec(dt, 32768);
        let kt = key_translate_exec(kb, keys, half_dt);
        let kr = key_rotate_exec(kb, keys, mouse, half_dt);
        translate = add_exec(&translate, &kt);
        rotate = add_exec(&rotate, &kr);
    } else {
        proof {
            assert(v_add(translate@, v_zero()) == translate@);
            assert(v_add(rotate@, v_zero()) == rotate@);
        }
    }
    InputIntent { translate, rotate }
}

} // verus!
