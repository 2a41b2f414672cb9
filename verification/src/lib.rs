//! A Monte-Carlo path-tracing core over exact fixed-point arithmetic.
//!
//! The renderer traces rays through a scene of spheres: for every pixel it
//! draws jittered samples, resolves each sample's color by recursive
//! scattering with a bounded depth, and averages the samples. All scalars are
//! fixed-point integers with `SCALE` units per world unit, so every result is
//! exact and every arithmetic step is verified free of overflow.

use vstd::prelude::*;

pub mod camera;
pub mod color;
pub mod hittable;
pub mod material;
pub mod math;
pub mod progress;
pub mod random;
pub mod renderer;
pub mod ray;
pub mod vec3;

verus! {

/// Fixed-point unit: a scalar `v` stands for the real number `v / SCALE`.
pub const SCALE: i64 = 1_000_000;

/// Largest magnitude allowed for a coordinate of a scene point, a ray origin,
/// a ray direction or a sphere radius (1000 world units).
pub const COORD_LIMIT: i64 = 1_000_000_000;

/// Smallest admissible ray parameter for an intersection; keeps a scattered
/// ray from re-hitting the surface it left.
pub const T_EPS: i128 = 10;

/// Largest admissible ray parameter: the far horizon of the scene.
pub const T_FAR: i128 = 1_000_000_000_000_000;

} // verus!
