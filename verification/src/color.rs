//! Fixed-point colors: attenuation, accumulation, averaging, and the sky
//! gradient that a ray hitting nothing resolves to.

use vstd::prelude::*;
use crate::SCALE;
use crate::math::{muldiv_spec, muldiv_trunc, isqrt, isqrt_spec, lemma_muldiv_bound, iabs,
    is_isqrt, lemma_isqrt_value};
use crate::vec3::{Vec3, DOT_LIMIT, lemma_dot_self_pos, lemma_comp_sq_le_dot};
use vstd::arithmetic::div_mod::{lemma_div_is_ordered, lemma_div_pos_is_pos,
    lemma_div_multiples_vanish};

verus! {

/// Red component of the sky color (0.5 in fixed point).
pub const SKY_R: i64 = 500_000;

/// Green component of the sky color (0.7 in fixed point).
pub const SKY_G: i64 = 700_000;

/// Blue component of the sky color (1.0 in fixed point).
pub const SKY_B: i64 = 1_000_000;

/// A color sum may grow this large before averaging (ample room for
/// `u16::MAX` samples of valid colors).
pub const ACC_LIMIT: i64 = 100_000_000_000_000;

/// An additive linear color; components of displayable colors lie in
/// `[0, SCALE]`, sums of samples may exceed it.
#[derive(Clone, Copy, Debug, PartialEq, Eq, Structural)]
pub struct Color {
    pub r: i64,
    pub g: i64,
    pub b: i64,
}

impl Color {
    /// A displayable color: every channel within one unit of intensity.
    pub open spec fn valid(self) -> bool {
        &&& 0 <= self.r <= SCALE
        &&& 0 <= self.g <= SCALE
        &&& 0 <= self.b <= SCALE
    }

    pub open spec fn black_spec() -> Color {
        Color { r: 0, g: 0, b: 0 }
    }

    pub open spec fn white_spec() -> Color {
        Color { r: SCALE, g: SCALE, b: SCALE }
    }

    pub open spec fn sky_spec() -> Color {
        Color { r: SKY_R, g: SKY_G, b: SKY_B }
    }

    pub fn new(r: i64, g: i64, b: i64) -> (c: Color)
        ensures
            c == (Color { r, g, b }),
    {
        Color { r, g, b }
    }

    /// Pure black: what an absorbed or exhausted ray contributes.
    pub fn black() -> (c: Color)
        ensures
            c == Color::black_spec(),
    {
        Color { r: 0, g: 0, b: 0 }
    }

    /// Componentwise product scaled back down: light dimmed by an
    /// attenuation.
    pub fn attenuate(&self, o: &Color) -> (c: Color)
        requires
            self.valid(),
            o.valid(),
        ensures
            c.r == self.r * o.r / (SCALE as int),
            c.g == self.g * o.g / (SCALE as int),
            c.b == self.b * o.b / (SCALE as int),
            c.valid(),
    {
        Color {
            r: mul_unit(self.r, o.r),
            g: mul_unit(self.g, o.g),
            b: mul_unit(self.b, o.b),
        }
    }

    /// Componentwise sum, for accumulating samples.
    pub fn add(&self, o: &Color) -> (c: Color)
        requires
            0 <= self.r <= ACC_LIMIT,
            0 <= self.g <= ACC_LIMIT,
            0 <= self.b <= ACC_LIMIT,
            o.valid(),
        ensures
            c.r == self.r + o.r,
            c.g == self.g + o.g,
            c.b == self.b + o.b,
    {
        Color { r: self.r + o.r, g: self.g + o.g, b: self.b + o.b }
    }

    /// Componentwise division by the sample count.
    pub fn div_by(&self, n: u16) -> (c: Color)
        requires
            n >= 1,
            0 <= self.r <= (n as int) * SCALE,
            0 <= self.g <= (n as int) * SCALE,
            0 <= self.b <= (n as int) * SCALE,
        ensures
            c.r == self.r as int / n as int,
            c.g == self.g as int / n as int,
            c.b == self.b as int / n as int,
            c.valid(),
    {
        proof {
            lemma_avg_valid(self.r as int, n as int);
            lemma_avg_valid(self.g as int, n as int);
            lemma_avg_valid(self.b as int, n as int);
        }
        Color { r: self.r / (n as i64), g: self.g / (n as i64), b: self.b / (n as i64) }
    }
}

/// A sum of at most `n` valid channels, divided by `n`, is a valid channel.
proof fn lemma_avg_valid(s: int, n: int)
    requires
        0 < n,
        0 <= s <= n * SCALE,
    ensures
        0 <= s / n <= SCALE,
{
    lemma_div_pos_is_pos(s, n);
    lemma_div_is_ordered(s, n * SCALE, n);
    lemma_div_multiples_vanish(SCALE as int, n);
}

/// Product of two channels in `[0, SCALE]`, scaled back to `[0, SCALE]`.
fn mul_unit(a: i64, b: i64) -> (r: i64)
    requires
        0 <= a <= SCALE,
        0 <= b <= SCALE,
    ensures
        r == a * b / (SCALE as int),
        0 <= r <= SCALE,
{
    proof {
        assert(0 <= a * b <= SCALE * SCALE) by (nonlinear_arith)
            requires 0 <= a <= SCALE, 0 <= b <= SCALE;
        lemma_div_pos_is_pos(a * b, SCALE as int);
        lemma_div_is_ordered(a * b, SCALE * SCALE, SCALE as int);
        lemma_div_multiples_vanish(SCALE as int, SCALE as int);
    }
    (a * b) / SCALE
}

/// The vertical component of the direction, normalized to `[-SCALE, SCALE]`.
pub open spec fn unit_y_spec(d: Vec3) -> int {
    muldiv_spec(d.y as int, SCALE as int, isqrt_spec(d.dot_spec(d)))
}

/// Mix factor of the sky gradient: 0 straight down, SCALE straight up.
pub open spec fn gradient_t_spec(d: Vec3) -> int {
    (unit_y_spec(d) + SCALE as int) / 2
}

/// Linear interpolation between channels `w` (at `t == 0`) and `s`
/// (at `t == SCALE`).
pub open spec fn blend_spec(t: int, w: int, s: int) -> int {
    ((SCALE as int - t) * w + t * s) / (SCALE as int)
}

/// `c` is exactly the background gradient for direction `d`: white at the
/// bottom of the sky blending to sky-blue at the top.
pub open spec fn is_background(c: Color, d: Vec3) -> bool {
    &&& c.r == blend_spec(gradient_t_spec(d), SCALE as int, SKY_R as int)
    &&& c.g == blend_spec(gradient_t_spec(d), SCALE as int, SKY_G as int)
    &&& c.b == blend_spec(gradient_t_spec(d), SCALE as int, SKY_B as int)
}

/// One channel of the gradient blend.
fn blend(t: i64, w: i64, s: i64) -> (r: i64)
    requires
        0 <= t <= SCALE,
        0 <= w <= SCALE,
        0 <= s <= SCALE,
    ensures
        r == blend_spec(t as int, w as int, s as int),
        0 <= r <= SCALE,
{
    proof {
        assert(0 <= (SCALE - t) * w + t * s <= SCALE * SCALE) by (nonlinear_arith)
            requires 0 <= t <= SCALE, 0 <= w <= SCALE, 0 <= s <= SCALE;
        lemma_div_pos_is_pos((SCALE - t) * w + t * s, SCALE as int);
        lemma_div_is_ordered((SCALE - t) * w + t * s, SCALE * SCALE, SCALE as int);
        lemma_div_multiples_vanish(SCALE as int, SCALE as int);
    }
    ((SCALE - t) * w + t * s) / SCALE
}

/// The gradient's boundary values: a ray pointing straight down resolves to
/// pure white, one pointing straight up to the sky color.
pub proof fn lemma_background_boundaries()
    ensures
        is_background(Color::white_spec(), Vec3 { x: 0, y: -1_000_000i64, z: 0 }),
        is_background(Color::sky_spec(), Vec3 { x: 0, y: 1_000_000i64, z: 0 }),
{
    let down = Vec3 { x: 0, y: -1_000_000i64, z: 0 };
    let up = Vec3 { x: 0, y: 1_000_000i64, z: 0 };
    assert(down.dot_spec(down) == 1_000_000_000_000) by (nonlinear_arith)
        requires down.x == 0, down.y == -1_000_000, down.z == 0;
    assert(up.dot_spec(up) == 1_000_000_000_000) by (nonlinear_arith)
        requires up.x == 0, up.y == 1_000_000, up.z == 0;
    assert(is_isqrt(1_000_000_000_000, 1_000_000)) by (nonlinear_arith);
    lemma_isqrt_value(1_000_000_000_000, 1_000_000);
    assert(1_000_000int * 1_000_000 == 1_000_000_000_000) by (nonlinear_arith);
    lemma_div_multiples_vanish(1_000_000int, 1_000_000int);
    assert(unit_y_spec(down) == -1_000_000);
    assert(unit_y_spec(up) == 1_000_000);
    assert(gradient_t_spec(down) == 0);
    assert(gradient_t_spec(up) == 1_000_000);
    assert(1_000_000int * 500_000 == 500_000_000_000) by (nonlinear_arith);
    assert(1_000_000int * 700_000 == 700_000_000_000) by (nonlinear_arith);
    lemma_div_multiples_vanish(500_000int, 1_000_000int);
    lemma_div_multiples_vanish(700_000int, 1_000_000int);
    assert(blend_spec(0, SCALE as int, SKY_R as int) == SCALE);
    assert(blend_spec(1_000_000, SCALE as int, SKY_R as int) == SKY_R);
    assert(blend_spec(1_000_000, SCALE as int, SKY_G as int) == SKY_G);
    assert(blend_spec(1_000_000, SCALE as int, SKY_B as int) == SKY_B);
}

/// The color of a ray that escapes the scene: a vertical gradient between
/// white and sky-blue, driven by the normalized `y` of the direction.
pub fn background(dir: &Vec3) -> (c: Color)
    requires
        dir.bounded(),
        !dir.is_origin(),
    ensures
        is_background(c, *dir),
        c.valid(),
{
    proof {
        lemma_dot_self_pos(*dir);
        assert(dir.comps_bounded(DOT_LIMIT as int));
        assert(dir.x * dir.x <= crate::COORD_LIMIT * crate::COORD_LIMIT
            && dir.y * dir.y <= crate::COORD_LIMIT * crate::COORD_LIMIT
            && dir.z * dir.z <= crate::COORD_LIMIT * crate::COORD_LIMIT) by (nonlinear_arith)
            requires dir.bounded();
    }
    let a = dir.dot(dir);
    let l = isqrt(a);
    proof {
        assert(a >= 1);
        let ghost li: int = l as int;
        assert((a as int) < (li + 1) * (li + 1));
        if l == 0 {
            assert((li + 1) * (li + 1) == 1) by (nonlinear_arith)
                requires li == 0;
            assert(false);
        }
        lemma_comp_sq_le_dot(*dir);
        assert(iabs(dir.y as int) <= l) by (nonlinear_arith)
            requires dir.y * dir.y < (l + 1) * (l + 1), 0 <= l;
        lemma_muldiv_bound(dir.y as int, SCALE as int, l as int, l as int, SCALE as int);
        lemma_div_multiples_vanish(SCALE as int, l as int);
    }
    let uy = muldiv_trunc(dir.y as i128, SCALE as i128, l);
    let t = ((uy + SCALE as i128) / 2) as i64;
    Color {
        r: blend(t, SCALE, SKY_R),
        g: blend(t, SCALE, SKY_G),
        b: blend(t, SCALE, SKY_B),
    }
}

} // verus!
