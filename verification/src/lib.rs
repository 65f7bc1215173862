//! A verified core for a small space-flight scene: procedural planet-surface
//! textures, ship flight dynamics, and a chase camera.
//!
//! All quantities are modelled as signed fixed-point numbers with six decimal
//! places (see [`fixed`]), so every update rule is stated and proved exactly.

pub mod camera;
pub mod color;
pub mod fixed;
pub mod flight;
pub mod palette;
pub mod placement;
pub mod quat;
pub mod rng;
pub mod texture;
pub mod trig;
pub mod vec3;
