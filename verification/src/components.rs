//! Per-camera state.

use vstd::prelude::*;

use crate::vec3::Vec3Fx;

verus! {

/// Per-camera pose and tuning, updated every frame by the movement system.
///
/// `fwd` and `up` span the camera's local frame; the movement system corrects
/// them to an orthonormal pair (at fixed-point scale) at the start of every
/// update, so they must never be zero or colinear. `position` is free-form.
/// The two speeds are fixed-point tunables: units per second of translation
/// and radians per second of rotation at full intent.
#[derive(Clone, Copy, Debug, PartialEq, Eq, Structural)]
pub struct DebugCamera {
    /// Up vector of the camera's local frame, a fixed-point vector.
    pub up: Vec3Fx,
    /// Forward vector of the camera's local frame, a fixed-point vector.
    pub fwd: Vec3Fx,
    /// Position in world space, a fixed-point vector.
    pub position: Vec3Fx,
    /// Translation speed in units per second, fixed point.
    pub speed_translate: i64,
    /// Rotation speed in radians per second, fixed point.
    pub speed_rotate: i64,
}

impl Default for DebugCamera {
    /// A camera at the origin looking along positive x with y up, translating
    /// at 100 units per second and rotating at a quarter pi radians per
    /// second.
    fn default() -> (r: DebugCamera)
        ensures
            r == (DebugCamera {
                up: Vec3Fx { x: 0, y: 65536, z: 0 },
                fwd: Vec3Fx { x: 65536, y: 0, z: 0 },
                position: Vec3Fx { x: 0, y: 0, z: 0 },
                speed_translate: 6553600,
                speed_rotate: 51472,
            }),
    {
        DebugCamera {
            up: Vec3Fx { x: 0, y: 65536, z: 0 },
            fwd: Vec3Fx { x: 65536, y: 0, z: 0 },
            position: Vec3Fx { x: 0, y: 0, z: 0 },
            speed_translate: 6553600,
            speed_rotate: 51472,
        }
    }
}

} // verus!
