//! The camera capability: a mapping from normalized image-plane coordinates
//! to world-space rays, and a verified axis-aligned viewport camera.

use vstd::prelude::*;
use crate::{SCALE, COORD_LIMIT};
use crate::vec3::Vec3;
use crate::ray::Ray;
use crate::math::{muldiv_trunc, lemma_muldiv_le, iabs, muldiv_spec};
use crate::vec3::lemma_prod_bound;

verus! {

/// Largest component magnitude for a camera's frame vectors; keeps every
/// generated ray within the scene's coordinate range.
pub const CAMERA_LIMIT: i64 = 125_000_000;

/// Maps image-plane coordinates `(u, v)` to a world ray. Implementations
/// promise only that the ray is one the tracer accepts.
pub trait Camera {
    /// `u` and `v` are fixed-point fractions of the image plane; a jittered
    /// sample at the last pixel may exceed `SCALE`, hence the slack.
    fn make_ray(&self, u: i64, v: i64) -> (r: Ray)
        requires
            0 <= u <= 2 * SCALE,
            0 <= v <= 2 * SCALE,
        ensures
            r.valid(),
    ;
}

/// An axis-aligned viewport camera: rays start at `origin` and point at
/// `lower_left + u * horizontal + v * vertical`, with the frame vectors in a
/// plane parallel to `z == 0` and the viewport off the origin's plane, so a
/// direction can never be zero.
pub struct SimpleCamera {
    origin: Vec3,
    lower_left: Vec3,
    horizontal: Vec3,
    vertical: Vec3,
}

impl SimpleCamera {
    /// The eye point rays start from.
    pub closed spec fn origin_spec(self) -> Vec3 {
        self.origin
    }

    /// The viewport corner rays aim at when `u == v == 0`.
    pub closed spec fn lower_left_spec(self) -> Vec3 {
        self.lower_left
    }

    /// The viewport edge swept by `u`.
    pub closed spec fn horizontal_spec(self) -> Vec3 {
        self.horizontal
    }

    /// The viewport edge swept by `v`.
    pub closed spec fn vertical_spec(self) -> Vec3 {
        self.vertical
    }

    #[verifier::type_invariant]
    spec fn wf(self) -> bool {
        &&& self.origin.comps_bounded(CAMERA_LIMIT as int)
        &&& self.lower_left.comps_bounded(CAMERA_LIMIT as int)
        &&& self.horizontal.comps_bounded(CAMERA_LIMIT as int)
        &&& self.vertical.comps_bounded(CAMERA_LIMIT as int)
        &&& self.horizontal.z == 0
        &&& self.vertical.z == 0
        &&& self.lower_left.z != self.origin.z
    }

    /// Accepts exactly the frames whose rays stay representable and can
    /// never have a zero direction.
    pub fn new(origin: Vec3, lower_left: Vec3, horizontal: Vec3, vertical: Vec3) -> (c: Option<
        SimpleCamera,
    >)
        ensures
            c is Some <==> {
                &&& origin.comps_bounded(CAMERA_LIMIT as int)
                &&& lower_left.comps_bounded(CAMERA_LIMIT as int)
                &&& horizontal.comps_bounded(CAMERA_LIMIT as int)
                &&& vertical.comps_bounded(CAMERA_LIMIT as int)
                &&& horizontal.z == 0
                &&& vertical.z == 0
                &&& lower_left.z != origin.z
            },
            c matches Some(cam) ==> {
                &&& cam.origin_spec() == origin
                &&& cam.lower_left_spec() == lower_left
                &&& cam.horizontal_spec() == horizontal
                &&& cam.vertical_spec() == vertical
            },
    {
        if in_frame(&origin) && in_frame(&lower_left) && in_frame(&horizontal) && in_frame(
            &vertical,
        ) && horizontal.z == 0 && vertical.z == 0 && lower_left.z != origin.z {
            Some(SimpleCamera { origin, lower_left, horizontal, vertical })
        } else {
            None
        }
    }
}

fn in_frame(v: &Vec3) -> (b: bool)
    ensures
        b == v.comps_bounded(CAMERA_LIMIT as int),
{
    -CAMERA_LIMIT <= v.x && v.x <= CAMERA_LIMIT && -CAMERA_LIMIT <= v.y && v.y <= CAMERA_LIMIT
        && -CAMERA_LIMIT <= v.z && v.z <= CAMERA_LIMIT
}

/// One frame component scaled by an image-plane fraction: `u * c / SCALE`.
fn frame_scale(u: i64, c: i64) -> (r: i64)
    requires
        0 <= u <= 2 * SCALE,
        -CAMERA_LIMIT <= c <= CAMERA_LIMIT,
    ensures
        r == muldiv_spec(u as int, c as int, SCALE as int),
        -2 * CAMERA_LIMIT <= r <= 2 * CAMERA_LIMIT,
{
    proof {
        lemma_prod_bound(u as int, c as int, 2 * SCALE as int, CAMERA_LIMIT as int);
        assert(iabs((u as int) * (c as int)) == iabs(u as int) * iabs(c as int))
            by (nonlinear_arith);
        assert(iabs(u as int) * iabs(c as int) <= (2 * CAMERA_LIMIT as int) * (SCALE as int))
            by (nonlinear_arith)
            requires 0 <= iabs(u as int) <= 2 * SCALE as int, 0 <= iabs(c as int) <= CAMERA_LIMIT as int;
        lemma_muldiv_le(u as int, c as int, SCALE as int, 2 * CAMERA_LIMIT as int);
    }
    muldiv_trunc(u as i128, c as i128, SCALE as i128) as i64
}

impl Camera for SimpleCamera {
    /// The ray from the eye toward `lower_left + u * horizontal / SCALE
    /// + v * vertical / SCALE`, stated exactly per component.
    fn make_ray(&self, u: i64, v: i64) -> (r: Ray)
        ensures
            r.origin == self.origin_spec(),
            r.direction.x == self.lower_left_spec().x - self.origin_spec().x + muldiv_spec(
                u as int, self.horizontal_spec().x as int, SCALE as int) + muldiv_spec(v as int,
                self.vertical_spec().x as int, SCALE as int),
            r.direction.y == self.lower_left_spec().y - self.origin_spec().y + muldiv_spec(
                u as int, self.horizontal_spec().y as int, SCALE as int) + muldiv_spec(v as int,
                self.vertical_spec().y as int, SCALE as int),
            r.direction.z == self.lower_left_spec().z - self.origin_spec().z,
    {
        proof {
            use_type_invariant(self);
        }
        let hx = frame_scale(u, self.horizontal.x);
        let hy = frame_scale(u, self.horizontal.y);
        let vx = frame_scale(v, self.vertical.x);
        let vy = frame_scale(v, self.vertical.y);
        let dir = Vec3 {
            x: self.lower_left.x - self.origin.x + hx + vx,
            y: self.lower_left.y - self.origin.y + hy + vy,
            z: self.lower_left.z - self.origin.z,
        };
        Ray { origin: self.origin, direction: dir }
    }
}

} // verus!
