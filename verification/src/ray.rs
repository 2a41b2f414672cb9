//! A ray: a half-line from an origin along a direction, the unit the tracer
//! follows through the scene.

use vstd::prelude::*;
use crate::vec3::Vec3;

verus! {

/// A half-line in space; points along it are `origin + t * direction / SCALE`
/// for ray parameters `t >= 0`.
#[derive(Clone, Copy, Debug, PartialEq, Eq, Structural)]
pub struct Ray {
    pub origin: Vec3,
    pub direction: Vec3,
}

impl Ray {
    /// A ray the tracer accepts: both vectors within the coordinate range and
    /// a direction that is not the zero vector.
    pub open spec fn valid(self) -> bool {
        &&& self.origin.bounded()
        &&& self.direction.bounded()
        &&& !self.direction.is_origin()
    }

    pub fn new(origin: Vec3, direction: Vec3) -> (r: Ray)
        ensures
            r == (Ray { origin, direction }),
    {
        Ray { origin, direction }
    }
}

} // verus!
