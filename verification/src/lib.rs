//! A Monte-Carlo path tracer over fixed-point scalars.
//!
//! Scenes are made of spheres with diffuse, metallic or dielectric
//! materials; rays are fired from a thin-lens camera and bounce through the
//! scene until they are absorbed, miss everything, or exhaust their depth
//! budget. All scalar arithmetic is fixed-point over `i64` (16 fractional
//! bits), so every computation is stated and verified exactly over the
//! integers, and a render is a deterministic function of the scene and of
//! the entropy stream it is given.

pub mod camera;
pub mod collide;
pub mod color;
pub mod entropy;
pub mod fixed;
pub mod material;
pub mod ray;
pub mod trig;
pub mod vector;
pub mod world;
