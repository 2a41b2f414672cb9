//! Three-component fixed-point vectors and the little algebra the tracer
//! needs from them: subtraction and dot products, exact over wide integers.

use vstd::prelude::*;
use crate::COORD_LIMIT;
use crate::math::iabs;

verus! {

/// Largest component magnitude `dot` accepts without overflowing its `i128`
/// intermediates; wide enough for differences of two in-range points.
pub const DOT_LIMIT: i64 = 4_000_000_000;

/// A point or direction in space, each component a fixed-point scalar.
#[derive(Clone, Copy, Debug, PartialEq, Eq, Structural)]
pub struct Vec3 {
    pub x: i64,
    pub y: i64,
    pub z: i64,
}

impl Vec3 {
    /// Every component lies within `m` in magnitude.
    pub open spec fn comps_bounded(self, m: int) -> bool {
        &&& -m <= self.x <= m
        &&& -m <= self.y <= m
        &&& -m <= self.z <= m
    }

    /// Within the coordinate range the scene admits.
    pub open spec fn bounded(self) -> bool {
        self.comps_bounded(COORD_LIMIT as int)
    }

    pub open spec fn is_origin(self) -> bool {
        self.x == 0 && self.y == 0 && self.z == 0
    }

    /// The mathematical dot product, free of overflow.
    pub open spec fn dot_spec(self, o: Vec3) -> int {
        self.x * o.x + self.y * o.y + self.z * o.z
    }

    pub fn new(x: i64, y: i64, z: i64) -> (v: Vec3)
        ensures
            v == (Vec3 { x, y, z }),
    {
        Vec3 { x, y, z }
    }

    /// Componentwise difference.
    pub fn sub(&self, o: &Vec3) -> (r: Vec3)
        requires
            self.comps_bounded(COORD_LIMIT as int),
            o.comps_bounded(COORD_LIMIT as int),
        ensures
            r.x == self.x - o.x,
            r.y == self.y - o.y,
            r.z == self.z - o.z,
            r.comps_bounded(2 * COORD_LIMIT as int),
    {
        Vec3 { x: self.x - o.x, y: self.y - o.y, z: self.z - o.z }
    }

    /// Exact dot product over wide intermediates.
    pub fn dot(&self, o: &Vec3) -> (r: i128)
        requires
            self.comps_bounded(DOT_LIMIT as int),
            o.comps_bounded(DOT_LIMIT as int),
        ensures
            r == self.dot_spec(*o),
    {
        proof {
            lemma_prod_bound(self.x as int, o.x as int, DOT_LIMIT as int, DOT_LIMIT as int);
            lemma_prod_bound(self.y as int, o.y as int, DOT_LIMIT as int, DOT_LIMIT as int);
            lemma_prod_bound(self.z as int, o.z as int, DOT_LIMIT as int, DOT_LIMIT as int);
        }
        (self.x as i128) * (o.x as i128) + (self.y as i128) * (o.y as i128) + (self.z as i128)
            * (o.z as i128)
    }
}

/// A product of values bounded by `ma` and `mb` is bounded by `ma * mb`.
pub proof fn lemma_prod_bound(a: int, b: int, ma: int, mb: int)
    requires
        -ma <= a <= ma,
        -mb <= b <= mb,
        0 <= ma,
        0 <= mb,
    ensures
        -(ma * mb) <= a * b <= ma * mb,
{
    assert(-(ma * mb) <= a * b <= ma * mb) by (nonlinear_arith)
        requires -ma <= a <= ma, -mb <= b <= mb, 0 <= ma, 0 <= mb;
}

/// A dot product of vectors with bounded components is bounded by three
/// times the product of the bounds.
pub proof fn lemma_dot_bound(u: Vec3, v: Vec3, mu: int, mv: int)
    requires
        u.comps_bounded(mu),
        v.comps_bounded(mv),
        0 <= mu,
        0 <= mv,
    ensures
        iabs(u.dot_spec(v)) <= 3 * (mu * mv),
{
    lemma_prod_bound(u.x as int, v.x as int, mu, mv);
    lemma_prod_bound(u.y as int, v.y as int, mu, mv);
    lemma_prod_bound(u.z as int, v.z as int, mu, mv);
}

/// The dot product of a vector with itself is nonnegative, and positive when
/// the vector is not the origin.
pub proof fn lemma_dot_self_pos(d: Vec3)
    ensures
        d.dot_spec(d) >= 0,
        !d.is_origin() ==> d.dot_spec(d) >= 1,
{
    assert(d.x * d.x >= 0 && d.y * d.y >= 0 && d.z * d.z >= 0) by (nonlinear_arith);
    if d.x != 0 {
        assert(d.x * d.x >= 1) by (nonlinear_arith)
            requires d.x != 0;
    }
    if d.y != 0 {
        assert(d.y * d.y >= 1) by (nonlinear_arith)
            requires d.y != 0;
    }
    if d.z != 0 {
        assert(d.z * d.z >= 1) by (nonlinear_arith)
            requires d.z != 0;
    }
}

/// Each component's square is at most the vector's dot product with itself.
pub proof fn lemma_comp_sq_le_dot(d: Vec3)
    ensures
        d.y * d.y <= d.dot_spec(d),
{
    assert(d.x * d.x >= 0 && d.z * d.z >= 0) by (nonlinear_arith);
}

} // verus!
