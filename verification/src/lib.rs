//! A small ray-tracing library: homogeneous tuples and 4x4 matrices, affine
//! transform builders, spheres and planes with materials and procedural
//! patterns, Phong lighting with shadow tests, and a recursive world
//! integrator with reflection and refraction, rendered through a pinhole
//! camera.
//!
//! All scalar quantities are fixed-point numbers (see [`fixed`]), so every
//! arithmetic step has an exact integer meaning that the function contracts
//! pin down.

pub mod canvas;
pub mod colour;
pub mod fixed;
pub mod matrix;
pub mod projectile;
pub mod ray;
pub mod shapes;
pub mod world;
pub mod transformation;
pub mod tuple;
