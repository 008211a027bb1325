//! A free-fly camera model, verified.
//!
//! The camera keeps a position, look angles (yaw and pitch), an up vector and
//! perspective parameters, and turns them into view and projection matrices of
//! the kind a renderer feeds to a shader. All state is held in fixed-point
//! integers (micro-units, one unit = 1_000_000), so every update and every
//! matrix entry has an exact arithmetic meaning that the contracts state.
//! Trigonometric values (sine, cosine, tangent) cannot be computed here; the
//! caller supplies them as fixed-point arguments, and the contracts say exactly
//! what is built from them.

pub mod camera;
pub mod fixed;
pub mod input;
pub mod mat4;
pub mod uniform;
pub mod vec3;
