//! Spheres and the nearest-hit query: a brute-force scan that solves the
//! ray-sphere quadratic for every sphere and keeps the closest qualifying
//! root, shrinking the search interval as it goes.

use vstd::prelude::*;
use crate::{SCALE, COORD_LIMIT, T_FAR};
use crate::vec3::{Vec3, lemma_dot_bound, lemma_dot_self_pos, lemma_prod_bound};
use crate::ray::Ray;
use crate::math::{muldiv_spec, muldiv_trunc, isqrt, isqrt_spec, iabs, lemma_muldiv_le};

verus! {

/// A sphere with the material light scatters on when it hits the surface.
pub struct Sphere<M> {
    pub center: Vec3,
    pub radius: i64,
    pub material: M,
}

impl<M> Sphere<M> {
    /// A sphere the tracer accepts: center in range, radius positive and in
    /// range.
    pub open spec fn valid(self) -> bool {
        &&& self.center.bounded()
        &&& 0 < self.radius <= COORD_LIMIT
    }
}

/// Where and how a ray met a sphere; `sphere_index` names the sphere hit,
/// and through it the material to scatter on.
#[derive(Clone, Copy, Debug, PartialEq, Eq, Structural)]
pub struct HitRecord {
    pub point: Vec3,
    pub normal: Vec3,
    pub t: i128,
    pub sphere_index: usize,
}

pub open spec fn fits_i64(v: int) -> bool {
    -9223372036854775808 <= v <= 9223372036854775807
}

pub open spec fn fits3(p: (int, int, int)) -> bool {
    fits_i64(p.0) && fits_i64(p.1) && fits_i64(p.2)
}

/// The smallest ray parameter strictly inside `(t_min, t_max)` at which the
/// ray meets the sphere, by the fixed-point quadratic; the nearer root is
/// preferred, the farther tried when the nearer misses the interval.
pub open spec fn hit_t_spec(c: Vec3, radius: i64, ray: Ray, t_min: int, t_max: int) -> Option<
    int,
> {
    let ox = ray.origin.x - c.x;
    let oy = ray.origin.y - c.y;
    let oz = ray.origin.z - c.z;
    let dx = ray.direction.x as int;
    let dy = ray.direction.y as int;
    let dz = ray.direction.z as int;
    let qa = dx * dx + dy * dy + dz * dz;
    let hb = ox * dx + oy * dy + oz * dz;
    let qc = ox * ox + oy * oy + oz * oz - radius * radius;
    let disc = hb * hb - qa * qc;
    if disc < 0 {
        None
    } else {
        let sq = isqrt_spec(disc);
        let t1 = muldiv_spec(-hb - sq, SCALE as int, qa);
        let t2 = muldiv_spec(-hb + sq, SCALE as int, qa);
        if t_min < t1 < t_max {
            Some(t1)
        } else if t_min < t2 < t_max {
            Some(t2)
        } else {
            None
        }
    }
}

/// The point the ray reaches at parameter `t`.
pub open spec fn point_at_spec(ray: Ray, t: int) -> (int, int, int) {
    (
        ray.origin.x + muldiv_spec(t, ray.direction.x as int, SCALE as int),
        ray.origin.y + muldiv_spec(t, ray.direction.y as int, SCALE as int),
        ray.origin.z + muldiv_spec(t, ray.direction.z as int, SCALE as int),
    )
}

/// The outward surface direction at `p`, scaled toward unit length by the
/// radius.
pub open spec fn normal_at_spec(p: (int, int, int), c: Vec3, radius: i64) -> (int, int, int) {
    (
        muldiv_spec(p.0 - c.x, SCALE as int, radius as int),
        muldiv_spec(p.1 - c.y, SCALE as int, radius as int),
        muldiv_spec(p.2 - c.z, SCALE as int, radius as int),
    )
}

/// Full result of testing one sphere: parameter, hit point and scaled
/// normal, or nothing when no hit representable in the coordinate type lies
/// strictly inside the interval.
pub open spec fn sphere_hit_spec(c: Vec3, radius: i64, ray: Ray, t_min: int, t_max: int) -> Option<
    (int, (int, int, int), (int, int, int)),
> {
    match hit_t_spec(c, radius, ray, t_min, t_max) {
        None => None,
        Some(t) => {
            let p = point_at_spec(ray, t);
            let n = normal_at_spec(p, c, radius);
            if fits3(p) && fits3(n) {
                Some((t, p, n))
            } else {
                None
            }
        },
    }
}

pub open spec fn point_tuple(h: HitRecord) -> (int, int, int) {
    (h.point.x as int, h.point.y as int, h.point.z as int)
}

pub open spec fn normal_tuple(h: HitRecord) -> (int, int, int) {
    (h.normal.x as int, h.normal.y as int, h.normal.z as int)
}

fn in_i64(v: i128) -> (b: bool)
    ensures
        b == fits_i64(v as int),
{
    -9223372036854775808i128 <= v && v <= 9223372036854775807i128
}

/// Test one sphere against the ray over the open interval
/// `(t_min, t_max)`; `index` names the sphere in the scene.
pub fn sphere_hit<M>(s: &Sphere<M>, ray: &Ray, t_min: i128, t_max: i128, index: usize) -> (h:
    Option<HitRecord>)
    requires
        s.valid(),
        ray.valid(),
        0 < t_min,
        t_max <= T_FAR,
    ensures
        match h {
            Some(hr) => {
                &&& sphere_hit_spec(s.center, s.radius, *ray, t_min as int, t_max as int)
                    == Some((hr.t as int, point_tuple(hr), normal_tuple(hr)))
                &&& hr.sphere_index == index
                &&& t_min < hr.t < t_max
                &&& point_tuple(hr) == point_at_spec(*ray, hr.t as int)
                &&& normal_tuple(hr) == normal_at_spec(
                    point_at_spec(*ray, hr.t as int),
                    s.center,
                    s.radius,
                )
            },
            None => sphere_hit_spec(s.center, s.radius, *ray, t_min as int, t_max as int) is None,
        },
{
    let oc = ray.origin.sub(&s.center);
    let d = ray.direction;
    proof {
        lemma_dot_self_pos(d);
        lemma_dot_bound(d, d, COORD_LIMIT as int, COORD_LIMIT as int);
        lemma_dot_bound(oc, d, 2 * COORD_LIMIT as int, COORD_LIMIT as int);
        lemma_dot_bound(oc, oc, 2 * COORD_LIMIT as int, 2 * COORD_LIMIT as int);
        assert(3 * ((COORD_LIMIT as int) * (COORD_LIMIT as int)) == 3_000_000_000_000_000_000)
            by (nonlinear_arith);
        assert(3 * ((2 * COORD_LIMIT as int) * (COORD_LIMIT as int)) == 6_000_000_000_000_000_000)
            by (nonlinear_arith);
        assert(3 * ((2 * COORD_LIMIT as int) * (2 * COORD_LIMIT as int))
            == 12_000_000_000_000_000_000) by (nonlinear_arith);
    }
    let qa = d.dot(&d);
    let hb = oc.dot(&d);
    let occ = oc.dot(&oc);
    proof {
        assert(1 <= (s.radius as int) * (s.radius as int) <= 1_000_000_000_000_000_000)
            by (nonlinear_arith)
            requires 0 < s.radius <= 1_000_000_000;
    }
    let rr = (s.radius as i128) * (s.radius as i128);
    let qc = occ - rr;
    proof {
        lemma_prod_bound(hb as int, hb as int, 6_000_000_000_000_000_000, 6_000_000_000_000_000_000);
        lemma_prod_bound(qa as int, qc as int, 3_000_000_000_000_000_000, 13_000_000_000_000_000_000);
        assert(6_000_000_000_000_000_000i128 * 6_000_000_000_000_000_000
            == 36_000_000_000_000_000_000_000_000_000_000_000_000) by (nonlinear_arith);
        assert(3_000_000_000_000_000_000i128 * 13_000_000_000_000_000_000
            == 39_000_000_000_000_000_000_000_000_000_000_000_000) by (nonlinear_arith);
    }
    let disc = hb * hb - qa * qc;
    if disc < 0 {
        return None;
    }
    let sq = isqrt(disc);
    let t1 = muldiv_trunc(-hb - sq, SCALE as i128, qa);
    let t2 = muldiv_trunc(-hb + sq, SCALE as i128, qa);
    let chosen: i128;
    if t_min < t1 && t1 < t_max {
        chosen = t1;
    } else if t_min < t2 && t2 < t_max {
        chosen = t2;
    } else {
        return None;
    }
    proof {
        assert(T_FAR * (COORD_LIMIT as int) == 1_000_000_000_000_000_000 * (SCALE as int))
            by (nonlinear_arith);
        lemma_prod_bound(chosen as int, ray.direction.x as int, T_FAR as int, COORD_LIMIT as int);
        lemma_prod_bound(chosen as int, ray.direction.y as int, T_FAR as int, COORD_LIMIT as int);
        lemma_prod_bound(chosen as int, ray.direction.z as int, T_FAR as int, COORD_LIMIT as int);
        lemma_abs_prod(chosen as int, ray.direction.x as int);
        lemma_abs_prod(chosen as int, ray.direction.y as int);
        lemma_abs_prod(chosen as int, ray.direction.z as int);
        lemma_muldiv_le(chosen as int, ray.direction.x as int, SCALE as int,
            1_000_000_000_000_000_000);
        lemma_muldiv_le(chosen as int, ray.direction.y as int, SCALE as int,
            1_000_000_000_000_000_000);
        lemma_muldiv_le(chosen as int, ray.direction.z as int, SCALE as int,
            1_000_000_000_000_000_000);
    }
    let pwx = (ray.origin.x as i128) + muldiv_trunc(chosen, ray.direction.x as i128,
        SCALE as i128);
    let pwy = (ray.origin.y as i128) + muldiv_trunc(chosen, ray.direction.y as i128,
        SCALE as i128);
    let pwz = (ray.origin.z as i128) + muldiv_trunc(chosen, ray.direction.z as i128,
        SCALE as i128);
    if !(in_i64(pwx) && in_i64(pwy) && in_i64(pwz)) {
        return None;
    }
    let nwx = muldiv_trunc(pwx - (s.center.x as i128), SCALE as i128, s.radius as i128);
    let nwy = muldiv_trunc(pwy - (s.center.y as i128), SCALE as i128, s.radius as i128);
    let nwz = muldiv_trunc(pwz - (s.center.z as i128), SCALE as i128, s.radius as i128);
    if !(in_i64(nwx) && in_i64(nwy) && in_i64(nwz)) {
        return None;
    }
    Some(
        HitRecord {
            point: Vec3 { x: pwx as i64, y: pwy as i64, z: pwz as i64 },
            normal: Vec3 { x: nwx as i64, y: nwy as i64, z: nwz as i64 },
            t: chosen,
            sphere_index: index,
        },
    )
}

/// The magnitude of a product is the product of the magnitudes.
proof fn lemma_abs_prod(a: int, b: int)
    ensures
        iabs(a * b) == iabs(a) * iabs(b),
{
    assert(iabs(a * b) == iabs(a) * iabs(b)) by (nonlinear_arith);
}

/// The nearest qualifying hit over a scene prefix: later spheres must beat
/// the best parameter found so far strictly, so the first sphere scanned
/// wins ties.
pub open spec fn nearest_hit_spec<M>(
    world: Seq<Sphere<M>>,
    ray: Ray,
    t_min: int,
    t_max: int,
) -> Option<(int, int)>
    decreases world.len(),
{
    if world.len() == 0 {
        None
    } else {
        let prev = nearest_hit_spec(world.drop_last(), ray, t_min, t_max);
        let bound = match prev {
            Some(pr) => pr.1,
            None => t_max,
        };
        match sphere_hit_spec(world.last().center, world.last().radius, ray, t_min, bound) {
            Some(hit) => Some((world.len() - 1, hit.0)),
            None => prev,
        }
    }
}

/// A scene with no spheres yields no hit, whatever the ray and the
/// interval: every ray traced against it escapes to the background.
pub proof fn lemma_empty_scene_misses<M>(ray: Ray, t_min: int, t_max: int)
    ensures
        nearest_hit_spec(Seq::<Sphere<M>>::empty(), ray, t_min, t_max) is None,
{
}

/// Scan every sphere and return the nearest hit strictly inside
/// `(t_min, t_max)`, or nothing when no sphere qualifies.
pub fn intersect_spheres<M>(world: &Vec<Sphere<M>>, ray: &Ray, t_min: i128, t_max: i128) -> (h:
    Option<HitRecord>)
    requires
        forall|i: int| 0 <= i < world@.len() ==> (#[trigger] world@[i]).valid(),
        ray.valid(),
        0 < t_min,
        t_max <= T_FAR,
    ensures
        match h {
            None => nearest_hit_spec(world@, *ray, t_min as int, t_max as int) is None,
            Some(hr) => {
                &&& nearest_hit_spec(world@, *ray, t_min as int, t_max as int) == Some(
                    (hr.sphere_index as int, hr.t as int),
                )
                &&& hr.sphere_index < world@.len()
                &&& t_min < hr.t < t_max
                &&& point_tuple(hr) == point_at_spec(*ray, hr.t as int)
                &&& normal_tuple(hr) == normal_at_spec(
                    point_at_spec(*ray, hr.t as int),
                    world@[hr.sphere_index as int].center,
                    world@[hr.sphere_index as int].radius,
                )
            },
        },
{
    let mut best: Option<HitRecord> = None;
    let mut k: usize = 0;
    while k < world.len()
        invariant
            k <= world@.len(),
            forall|i: int| 0 <= i < world@.len() ==> (#[trigger] world@[i]).valid(),
            ray.valid(),
            0 < t_min,
            t_max <= T_FAR,
            match best {
                None => nearest_hit_spec(world@.take(k as int), *ray, t_min as int, t_max as int)
                    is None,
                Some(hr) => {
                    &&& nearest_hit_spec(world@.take(k as int), *ray, t_min as int, t_max as int)
                        == Some((hr.sphere_index as int, hr.t as int))
                    &&& hr.sphere_index < k
                    &&& t_min < hr.t < t_max
                    &&& point_tuple(hr) == point_at_spec(*ray, hr.t as int)
                    &&& normal_tuple(hr) == normal_at_spec(
                        point_at_spec(*ray, hr.t as int),
                        world@[hr.sphere_index as int].center,
                        world@[hr.sphere_index as int].radius,
                    )
                },
            },
        decreases world@.len() - k,
    {
        let bound = match &best {
            Some(hbest) => hbest.t,
            None => t_max,
        };
        let hit = sphere_hit(&world[k], ray, t_min, bound, k);
        proof {
            assert(world@.take(k as int + 1).drop_last() =~= world@.take(k as int));
            assert(world@.take(k as int + 1).last() == world@[k as int]);
        }
        match hit {
            Some(newh) => {
                best = Some(newh);
            },
            None => {},
        }
        k = k + 1;
    }
    proof {
        assert(world@.take(world@.len() as int) =~= world@);
    }
    best
}

} // verus!
