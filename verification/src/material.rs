//! The material capability: a stochastic response to a hit — an attenuation
//! and a scattered ray, or absorption — and a verified absorbing material.

use vstd::prelude::*;
use crate::ray::Ray;
use crate::color::Color;
use crate::hittable::HitRecord;

verus! {

/// How a surface responds to light. Implementations promise only that a
/// scattered ray is one the tracer accepts and the attenuation is a
/// displayable color; whether and how they scatter is theirs, and may be
/// random.
pub trait Material {
    /// True of a material that never scatters: every ray it receives is
    /// absorbed and contributes black. Holds of no material unless an
    /// implementation says otherwise.
    open spec fn absorbs(&self) -> bool {
        false
    }

    fn scatter(&self, hit: &HitRecord, ray: &Ray) -> (s: Option<(Ray, Color)>)
        ensures
            match s {
                Some(rc) => rc.0.valid() && rc.1.valid(),
                None => true,
            },
            self.absorbs() ==> s is None,
    ;
}

/// A material that absorbs every ray: whatever hits it contributes black.
#[derive(Clone, Copy, Debug, PartialEq, Eq, Structural)]
pub struct Absorbing;

impl Material for Absorbing {
    open spec fn absorbs(&self) -> bool {
        true
    }

    fn scatter(&self, hit: &HitRecord, ray: &Ray) -> (s: Option<(Ray, Color)>) {
        None
    }
}

} // verus!
