//! An analytic ray tracer over fixed-point coordinates.
//!
//! Geometry, colour and shading are computed on scaled 64-bit integers
//! (one world unit is `constants::SCALE`), so every arithmetic step has an
//! exact, machine-checked contract: ray generation from a camera, the
//! quadratic ray/sphere intersection with its degenerate cases, intersection
//! ordering, the local lighting model, and tone-mapped 8-bit quantisation.
//! File output and process handling live outside the library.

pub mod camera;
pub mod colour;
pub mod constants;
pub mod image;
pub mod lighting;
pub mod material;
pub mod math;
pub mod physics;
pub mod quaternion;
pub mod ray;
pub mod render;
pub mod sphere;
pub mod vector;
