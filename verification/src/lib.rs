//! A free-fly camera for real-time 3D rendering, built on exact fixed-point
//! arithmetic.
//!
//! The camera accumulates keyboard and mouse input into a position, a pair of
//! Euler angles (yaw and pitch, in degrees) and a zoom angle, derives an
//! orthonormal front/right/up basis from the angles, and produces a look-at
//! view matrix for the render loop.  All scalars are fixed-point numbers
//! (millionths), so every operation has an exact integer model that the
//! contracts state in full.

pub mod camera;
pub mod fx;
pub mod mat4;
pub mod trig;
pub mod vec3;
