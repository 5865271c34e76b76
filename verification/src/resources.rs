//! Shared configuration and cross-frame state.

use vstd::prelude::*;

verus! {

/// The single gamepad currently treated as the input source, if any, by its
/// host-assigned identifier. Chosen first-connected-wins by
/// [`crate::connections::gamepad_connections`].
#[derive(Clone, Copy, Debug, PartialEq, Eq, Structural)]
pub struct ActiveGamepad(pub Option<u64>);

impl Default for ActiveGamepad {
    /// No gamepad is selected initially.
    fn default() -> (r: ActiveGamepad)
        ensures
            r.0 is None,
    {
        ActiveGamepad(None)
    }
}

/// Gates which device classes may contribute to camera movement this frame.
#[derive(Clone, Copy, Debug, PartialEq, Eq, Structural)]
pub struct DebugCameraActive {
    /// Whether the keyboard and mouse bindings are active.
    pub keymouse: bool,
    /// Whether the gamepad bindings are active.
    pub gamepad: bool,
    /// Whether movement is frozen until the escape binding is pressed again.
    pub esc_toggled: bool,
}

impl Default for DebugCameraActive {
    /// Both device classes start active and movement is not frozen.
    fn default() -> (r: DebugCameraActive)
        ensures
            r == (DebugCameraActive { keymouse: true, gamepad: true, esc_toggled: false }),
    {
        DebugCameraActive { keymouse: true, gamepad: true, esc_toggled: false }
    }
}

/// Keyboard bindings: logical key identifiers, mapped by the host to its own
/// key codes. The defaults follow the classic QWERTY scancodes (W/S for
/// forward and back, space and left shift for up and down, A/D for strafing,
/// Q/E for roll, escape for the freeze toggle).
#[derive(Clone, Copy, Debug, PartialEq, Eq, Structural)]
pub struct KeyboardBindings {
    pub esc: u32,
    pub fwd: u32,
    pub bwd: u32,
    pub up: u32,
    pub down: u32,
    pub left: u32,
    pub right: u32,
    pub roll_left: u32,
    pub roll_right: u32,
}

impl Default for KeyboardBindings {
    fn default() -> (r: KeyboardBindings)
        ensures
            r == (KeyboardBindings {
                esc: 1,
                fwd: 17,
                bwd: 31,
                up: 57,
                down: 42,
                left: 30,
                right: 32,
                roll_left: 16,
                roll_right: 18,
            }),
    {
        KeyboardBindings {
            esc: 1,
            fwd: 17,
            bwd: 31,
            up: 57,
            down: 42,
            left: 30,
            right: 32,
            roll_left: 16,
            roll_right: 18,
        }
    }
}

/// Gamepad bindings: logical axis and button identifiers, mapped by the host
/// to its own codes. The defaults use the common layout of axes 0 to 3 for
/// the two sticks (left stick x/y, right stick x/y) and the usual bumper,
/// trigger and mode button numbering.
#[derive(Clone, Copy, Debug, PartialEq, Eq, Structural)]
pub struct GamepadBindings {
    /// Freeze-toggle button.
    pub esc: u32,
    /// Bipolar axis for forward and backward translation.
    pub fwd_bwd: u32,
    /// Unipolar trigger axis for upward translation.
    pub up: u32,
    /// Unipolar trigger axis for downward translation.
    pub down: u32,
    /// Bipolar axis for left and right translation.
    pub left_right: u32,
    /// Digital button rolling counterclockwise.
    pub roll_left: u32,
    /// Digital button rolling clockwise.
    pub roll_right: u32,
    /// Bipolar axis for yaw.
    pub yaw: u32,
    /// Bipolar axis for pitch.
    pub pitch: u32,
}

impl Default for GamepadBindings {
    fn default() -> (r: GamepadBindings)
        ensures
            r == (GamepadBindings {
                esc: 8,
                fwd_bwd: 1,
                up: 7,
                down: 6,
                left_right: 0,
                roll_left: 4,
                roll_right: 5,
                yaw: 2,
                pitch: 3,
            }),
    {
        GamepadBindings {
            esc: 8,
            fwd_bwd: 1,
            up: 7,
            down: 6,
            left_right: 0,
            roll_left: 4,
            roll_right: 5,
            yaw: 2,
            pitch: 3,
        }
    }
}

} // verus!
