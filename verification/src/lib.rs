//! A free-flying ("flycam") camera controller: per-frame input from a
//! keyboard+mouse and a gamepad is fused into a single motion intent, which is
//! integrated into a camera pose while keeping the camera's local
//! forward/up/right frame orthonormal.
//!
//! All scalar quantities are fixed-point values: an `i64` holding the real
//! value times [`fixed::SCALE`]. The host application samples its input
//! devices into the plain snapshot types of [`resources`], calls the systems
//! of [`fusion`] and [`integrate`] once per frame, and maps the resulting
//! pose back onto its renderer.

pub mod components;
pub mod connections;
pub mod fixed;
pub mod fusion;
pub mod integrate;
pub mod resources;
pub mod trig;
pub mod vec3;
