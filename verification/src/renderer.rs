//! The renderer: per-pixel jittered sampling, recursive color resolution
//! with a bounded scatter depth, sample averaging, and exact ray-count
//! bookkeeping.

use vstd::prelude::*;
use crate::{SCALE, COORD_LIMIT, T_EPS, T_FAR};
use crate::ray::Ray;
use crate::vec3::Vec3;
use crate::color::{Color, background, is_background};
use crate::hittable::{Sphere, intersect_spheres, nearest_hit_spec};
use crate::camera::Camera;
use crate::material::Material;
use crate::random::RandomSource;
use crate::progress::ProgressSink;
use vstd::arithmetic::div_mod::{lemma_div_is_ordered, lemma_div_pos_is_pos,
    lemma_div_multiples_vanish};

verus! {

/// Why a render is refused before any ray is traced.
#[derive(Clone, Copy, Debug, PartialEq, Eq, Structural)]
pub enum RenderError {
    /// The aspect ratio has a zero numerator or denominator.
    InvalidAspect,
    /// The image is under two pixels wide or tall.
    ImageTooSmall,
    /// The derived height does not fit the image dimensions.
    ImageTooTall,
    /// Zero samples per pixel were requested.
    NoSamples,
    /// The worst-case ray count would not fit the counter.
    TooManyRays,
    /// Some sphere has an out-of-range center or a non-positive or
    /// out-of-range radius.
    InvalidScene,
}

/// A finished render: the pixel grid, row by row from `j == 0`, and the
/// total number of rays resolved.
#[derive(Debug)]
pub struct RenderOutput {
    pub pixels: Vec<Vec<Color>>,
    pub num_rays: u64,
}

/// The componentwise sum of a sequence of sample colors.
pub open spec fn color_sum(s: Seq<Color>) -> (int, int, int)
    decreases s.len(),
{
    if s.len() == 0 {
        (0, 0, 0)
    } else {
        let p = color_sum(s.drop_last());
        (p.0 + s.last().r, p.1 + s.last().g, p.2 + s.last().b)
    }
}

/// `c` is the exact componentwise truncated average of `n` valid sample
/// colors.
pub open spec fn is_sample_average(n: int, c: Color) -> bool {
    exists|samples: Seq<Color>|
        #![trigger color_sum(samples)]
        {
            &&& samples.len() == n
            &&& (forall|k: int| #![trigger samples[k]] 0 <= k < n ==> samples[k].valid())
            &&& c.r == color_sum(samples).0 / n
            &&& c.g == color_sum(samples).1 / n
            &&& c.b == color_sum(samples).2 / n
        }
}

/// `c` is the exact componentwise truncated average of `n` sample colors,
/// each the background gradient of an admissible direction.
pub open spec fn is_background_average(n: int, c: Color) -> bool {
    exists|samples: Seq<Color>, dirs: Seq<Vec3>|
        #![trigger color_sum(samples), dirs.len()]
        {
            &&& samples.len() == n
            &&& dirs.len() == n
            &&& (forall|k: int| #![trigger samples[k]] 0 <= k < n ==> samples[k].valid())
            &&& (forall|k: int|
                #![trigger dirs[k]]
                0 <= k < n ==> dirs[k].bounded() && !dirs[k].is_origin() && is_background(
                    samples[k], dirs[k]))
            &&& c.r == color_sum(samples).0 / n
            &&& c.g == color_sum(samples).1 / n
            &&& c.b == color_sum(samples).2 / n
        }
}

/// The render pipeline: a scene of spheres, a camera, and the sampling
/// configuration, consumed by one terminal `render`.
pub struct Renderer<C: Camera, M: Material> {
    pub world: Vec<Sphere<M>>,
    pub camera: C,
    pub image_width: u32,
    pub aspect_num: u32,
    pub aspect_den: u32,
    pub num_samples: u16,
    pub max_depth: u16,
}

impl<C: Camera, M: Material> Renderer<C, M> {
    /// Image height: width over the aspect ratio, truncated.
    pub open spec fn height_spec(self) -> int {
        (self.image_width as int) * (self.aspect_den as int) / (self.aspect_num as int)
    }

    /// Every sphere of the scene is one the tracer accepts.
    pub open spec fn scene_ok(self) -> bool {
        forall|i: int| 0 <= i < self.world@.len() ==> (#[trigger] self.world@[i]).valid()
    }

    /// Every material of the scene absorbs; holds vacuously of an empty
    /// scene, where nothing is ever hit.
    pub open spec fn all_absorbing(self) -> bool {
        forall|i: int| 0 <= i < self.world@.len() ==> (#[trigger] self.world@[i]).material.absorbs()
    }

    /// The most rays one render can resolve: every sample scattering to the
    /// full depth.
    pub open spec fn ray_budget(self) -> int {
        (self.image_width as int) * self.height_spec() * (self.num_samples as int) * (
        self.max_depth as int + 1)
    }

    /// The first reason this configuration is refused, or nothing when a
    /// render may proceed.
    pub open spec fn first_error(self) -> Option<RenderError> {
        if self.aspect_num == 0 || self.aspect_den == 0 {
            Some(RenderError::InvalidAspect)
        } else if self.image_width < 2 {
            Some(RenderError::ImageTooSmall)
        } else if self.height_spec() > 4294967295 {
            Some(RenderError::ImageTooTall)
        } else if self.height_spec() < 2 {
            Some(RenderError::ImageTooSmall)
        } else if self.num_samples == 0 {
            Some(RenderError::NoSamples)
        } else if self.ray_budget() > 18446744073709551615 {
            Some(RenderError::TooManyRays)
        } else if !self.scene_ok() {
            Some(RenderError::InvalidScene)
        } else {
            None
        }
    }

    /// A renderer over the given scene and camera, with the default
    /// configuration: 800 pixels wide, a 16:9 aspect ratio, 100 samples per
    /// pixel and a scatter depth of 50.
    pub fn new(world: Vec<Sphere<M>>, camera: C) -> (r: Renderer<C, M>)
        ensures
            r.world == world,
            r.camera == camera,
            r.image_width == 800u32,
            r.aspect_num == 16u32,
            r.aspect_den == 9u32,
            r.num_samples == 100u16,
            r.max_depth == 50u16,
    {
        Renderer {
            world,
            camera,
            image_width: 800,
            aspect_num: 16,
            aspect_den: 9,
            num_samples: 100,
            max_depth: 50,
        }
    }

    /// The same renderer with another image width.
    pub fn width(self, image_width: u32) -> (r: Renderer<C, M>)
        ensures
            r.image_width == image_width,
            r.world == self.world,
            r.camera == self.camera,
            r.aspect_num == self.aspect_num,
            r.aspect_den == self.aspect_den,
            r.num_samples == self.num_samples,
            r.max_depth == self.max_depth,
    {
        Renderer { image_width, ..self }
    }

    /// The same renderer with another aspect ratio, given as the exact
    /// fraction `num : den`.
    pub fn aspect_ratio(self, num: u32, den: u32) -> (r: Renderer<C, M>)
        ensures
            r.aspect_num == num,
            r.aspect_den == den,
            r.world == self.world,
            r.camera == self.camera,
            r.image_width == self.image_width,
            r.num_samples == self.num_samples,
            r.max_depth == self.max_depth,
    {
        Renderer { aspect_num: num, aspect_den: den, ..self }
    }

    /// The same renderer with another per-pixel sample count.
    pub fn num_samples(self, num_samples: u16) -> (r: Renderer<C, M>)
        ensures
            r.num_samples == num_samples,
            r.world == self.world,
            r.camera == self.camera,
            r.image_width == self.image_width,
            r.aspect_num == self.aspect_num,
            r.aspect_den == self.aspect_den,
            r.max_depth == self.max_depth,
    {
        Renderer { num_samples, ..self }
    }

    /// The radiance estimate for one ray: count it, then give up at depth
    /// zero, scatter on the nearest sphere hit, or fall through to the
    /// background gradient. Every invocation counts exactly one ray, so the
    /// counter grows by one plus one per successful scatter along the path —
    /// at least 1 and at most `depth + 1`.
    pub fn ray_color(&self, r: &Ray, depth: u16, count: &mut u64) -> (c: Color)
        requires
            self.scene_ok(),
            r.valid(),
            (*old(count) as int) + (depth as int) + 1 <= 18446744073709551615,
        ensures
            c.valid(),
            (*old(count) as int) < (*final(count) as int) <= (*old(count) as int) + (
            depth as int) + 1,
            depth == 0 ==> (*final(count) as int) == (*old(count) as int) + 1 && c
                == Color::black_spec(),
            depth > 0 && nearest_hit_spec(self.world@, *r, T_EPS as int, T_FAR as int) is None
                ==> (*final(count) as int) == (*old(count) as int) + 1 && is_background(c,
                r.direction),
            depth > 0 && nearest_hit_spec(self.world@, *r, T_EPS as int, T_FAR as int) is Some
                ==> (((*final(count) as int) == (*old(count) as int) + 1 && c
                == Color::black_spec()) || (*final(count) as int) >= (*old(count) as int) + 2),
            self.all_absorbing() ==> (*final(count) as int) == (*old(count) as int) + 1,
            depth > 0 && self.all_absorbing() && nearest_hit_spec(self.world@, *r, T_EPS as int,
                T_FAR as int) is Some ==> c == Color::black_spec(),
        decreases depth,
    {
        *count = *count + 1;
        if depth == 0 {
            return Color::black();
        }
        match intersect_spheres(&self.world, r, T_EPS, T_FAR) {
            Some(hit) => {
                let idx = hit.sphere_index;
                match self.world[idx].material.scatter(&hit, r) {
                    Some(rc) => {
                        let (scattered, attenuation) = rc;
                        let rest = self.ray_color(&scattered, depth - 1, count);
                        attenuation.attenuate(&rest)
                    },
                    None => Color::black(),
                }
            },
            None => background(&r.direction),
        }
    }

    /// One pixel: the exact truncated average of `num_samples` jittered
    /// samples, each resolved through `ray_color` at the configured depth.
    /// Over an empty scene every sample is the background gradient of its
    /// ray's direction; over an all-absorbing scene exactly one ray is
    /// counted per sample.
    pub fn pixel_color<R: RandomSource>(
        &self,
        i: u32,
        j: u32,
        height: u32,
        rng: &mut R,
        count: &mut u64,
    ) -> (c: Color)
        requires
            self.scene_ok(),
            1 <= self.num_samples,
            2 <= self.image_width,
            2 <= height,
            i < self.image_width,
            j < height,
            (*old(count) as int) + (self.num_samples as int) * (self.max_depth as int + 1)
                <= 18446744073709551615,
        ensures
            c.valid(),
            (*old(count) as int) + (self.num_samples as int) <= (*final(count) as int) <= (
            *old(count) as int) + (self.num_samples as int) * (self.max_depth as int + 1),
            is_sample_average(self.num_samples as int, c),
            self.world@.len() == 0 && self.max_depth >= 1 ==> is_background_average(
                self.num_samples as int, c),
            self.all_absorbing() ==> (*final(count) as int) == (*old(count) as int) + (
            self.num_samples as int),
    {
        let ns = self.num_samples;
        let ghost mut samples: Seq<Color> = Seq::empty();
        let ghost mut dirs: Seq<Vec3> = Seq::empty();
        let ghost c0: int = *count as int;
        let ghost dep: int = self.max_depth as int + 1;
        let mut sum = Color::black();
        let mut s: u16 = 0;
        while s < ns
            invariant
                s <= ns,
                self.scene_ok(),
                1 <= ns,
                ns == self.num_samples,
                2 <= self.image_width,
                2 <= height,
                i < self.image_width,
                j < height,
                dep == self.max_depth as int + 1,
                c0 + (ns as int) * dep <= 18446744073709551615,
                0 <= sum.r <= (s as int) * (SCALE as int),
                0 <= sum.g <= (s as int) * (SCALE as int),
                0 <= sum.b <= (s as int) * (SCALE as int),
                c0 + (s as int) <= (*count as int) <= c0 + (s as int) * dep,
                samples.len() == s as int,
                forall|k: int| #![trigger samples[k]] 0 <= k < s as int ==> samples[k].valid(),
                dirs.len() == s as int,
                self.world@.len() == 0 && self.max_depth >= 1 ==> (forall|k: int|
                    #![trigger dirs[k]]
                    0 <= k < s as int ==> dirs[k].bounded() && !dirs[k].is_origin()
                        && is_background(samples[k], dirs[k])),
                sum.r == color_sum(samples).0,
                sum.g == color_sum(samples).1,
                sum.b == color_sum(samples).2,
                self.all_absorbing() ==> (*count as int) == c0 + (s as int),
            decreases ns - s,
        {
            proof {
                assert((s as int) * dep + dep == ((s as int) + 1) * dep) by (nonlinear_arith);
                assert(((s as int) + 1) * dep <= (ns as int) * dep) by (nonlinear_arith)
                    requires (s as int) + 1 <= ns as int, 0 <= dep;
            }
            let ju = rng.next_unit();
            let jv = rng.next_unit();
            let u = sample_coord(i, ju, self.image_width);
            let v = sample_coord(j, jv, height);
            let r = self.camera.make_ray(u, v);
            let sc = self.ray_color(&r, self.max_depth, count);
            proof {
                assert(((s as int) + 1) * (SCALE as int) == (s as int) * (SCALE as int) + (
                SCALE as int)) by (nonlinear_arith);
                assert((s as int) * (SCALE as int) <= 65535 * (SCALE as int)) by (nonlinear_arith)
                    requires 0 <= s as int <= 65535;
            }
            sum = sum.add(&sc);
            proof {
                assert(samples.push(sc).drop_last() =~= samples);
                samples = samples.push(sc);
                dirs = dirs.push(r.direction);
                assert(samples[s as int] == sc);
                assert(dirs[s as int] == r.direction);
                if self.world@.len() == 0 && self.max_depth >= 1 {
                    assert(nearest_hit_spec(self.world@, r, T_EPS as int, T_FAR as int) is None);
                    assert(is_background(sc, r.direction));
                }
            }
            s = s + 1;
        }
        let c = sum.div_by(ns);
        proof {
            assert(c.r == color_sum(samples).0 / (ns as int) && c.g == color_sum(samples).1 / (
            ns as int) && c.b == color_sum(samples).2 / (ns as int));
            assert(is_sample_average(ns as int, c));
            if self.world@.len() == 0 && self.max_depth >= 1 {
                assert(dirs.len() == ns as int);
                assert(is_background_average(ns as int, c));
            }
        }
        c
    }

    /// Validate the configuration and the scene, then resolve every pixel,
    /// advancing the progress sink once per pixel and once after the grid.
    /// Every pixel is the exact truncated average of `num_samples` sample
    /// colors; over an empty scene each is an average of background
    /// gradients. The ray counter of a finished render is at least one ray
    /// per sample of every pixel, at most the full budget, and exact when
    /// every material absorbs.
    #[verifier::loop_isolation(false)]
    pub fn render<R: RandomSource, P: ProgressSink>(self, rng: &mut R, progress: &mut P) -> (res:
        Result<RenderOutput, RenderError>)
        ensures
            match res {
                Err(e) => Some(e) == self.first_error(),
                Ok(out) => {
                    &&& self.first_error() is None
                    &&& out.pixels@.len() == self.height_spec()
                    &&& forall|jj: int| 0 <= jj < out.pixels@.len() ==> (#[trigger] out.pixels@[jj])@.len() == self.image_width as int
                    &&& forall|jj: int, ii: int|
                        0 <= jj < out.pixels@.len() && 0 <= ii < out.pixels@[jj]@.len()
                            ==> (#[trigger] out.pixels@[jj]@[ii]).valid()
                    &&& (self.image_width as int) * self.height_spec() * (self.num_samples as int)
                        <= out.num_rays as int <= self.ray_budget()
                    &&& self.all_absorbing() ==> out.num_rays as int == (self.image_width as int)
                        * self.height_spec() * (self.num_samples as int)
                    &&& forall|jj: int, ii: int|
                        0 <= jj < out.pixels@.len() && 0 <= ii < out.pixels@[jj]@.len()
                            ==> is_sample_average(self.num_samples as int,
                            #[trigger] out.pixels@[jj]@[ii])
                    &&& self.world@.len() == 0 && self.max_depth >= 1 ==> (forall|jj: int, ii: int|
                        0 <= jj < out.pixels@.len() && 0 <= ii < out.pixels@[jj]@.len()
                            ==> is_background_average(self.num_samples as int,
                            #[trigger] out.pixels@[jj]@[ii]))
                },
            },
    {
        if self.aspect_num == 0 || self.aspect_den == 0 {
            return Err(RenderError::InvalidAspect);
        }
        if self.image_width < 2 {
            return Err(RenderError::ImageTooSmall);
        }
        proof {
            assert((self.image_width as int) * (self.aspect_den as int) <= 4294967295
                * 4294967295) by (nonlinear_arith)
                requires
                    0 <= self.image_width as int <= 4294967295,
                    0 <= self.aspect_den as int <= 4294967295,
            ;
            lemma_div_pos_is_pos((self.image_width as int) * (self.aspect_den as int),
                self.aspect_num as int);
        }
        let h64: u64 = (self.image_width as u64) * (self.aspect_den as u64) / (
        self.aspect_num as u64);
        if h64 > 4294967295u64 {
            return Err(RenderError::ImageTooTall);
        }
        let height = h64 as u32;
        if height < 2 {
            return Err(RenderError::ImageTooSmall);
        }
        if self.num_samples == 0 {
            return Err(RenderError::NoSamples);
        }
        let ghost wi: int = self.image_width as int;
        let ghost hi: int = height as int;
        let ghost nsi: int = self.num_samples as int;
        let ghost dep: int = self.max_depth as int + 1;
        proof {
            lemma_budget_shape(wi, hi, nsi, dep);
            assert(wi * hi <= 18446744065119617025) by (nonlinear_arith)
                requires 0 <= wi <= 4294967295, 0 <= hi <= 4294967295;
            assert((wi * hi) * nsi <= 1208907852054800386703375) by (nonlinear_arith)
                requires 0 <= wi * hi <= 18446744065119617025, 0 <= nsi <= 65535;
            assert(((wi * hi) * nsi) * dep <= 79226953571658482385218699264000) by (nonlinear_arith)
                requires 0 <= (wi * hi) * nsi <= 1208907852054800386703375, 0 <= dep <= 65536;
        }
        let budget: u128 = (self.image_width as u128) * (h64 as u128) * (
        self.num_samples as u128) * ((self.max_depth as u128) + 1);
        if budget > 18446744073709551615u128 {
            return Err(RenderError::TooManyRays);
        }
        proof {
            assert(self.height_spec() == h64 as int);
            assert(self.ray_budget() == budget as int);
        }
        let mut k: usize = 0;
        while k < self.world.len()
            invariant
                k <= self.world@.len(),
                forall|q: int| 0 <= q < k ==> (#[trigger] self.world@[q]).valid(),
            decreases self.world@.len() - k,
        {
            if !sphere_ok(&self.world[k]) {
                proof {
                    assert(!self.world@[k as int].valid());
                }
                return Err(RenderError::InvalidScene);
            }
            k = k + 1;
        }
        let ghost nsdep: int = nsi * dep;
        proof {
            assert(((0int) * wi) * nsi == 0 && ((0int) * wi) * nsdep == 0) by (nonlinear_arith);
            assert(wi * hi * nsdep <= 18446744073709551615) by (nonlinear_arith)
                requires
                    nsdep == nsi * dep,
                    wi * hi * nsi * dep <= 18446744073709551615,
            ;
        }
        let mut count: u64 = 0;
        let mut pixels: Vec<Vec<Color>> = Vec::new();
        let mut j: u32 = 0;
        while j < height
            invariant
                j <= height,
                self.scene_ok(),
                1 <= self.num_samples,
                2 <= self.image_width,
                2 <= height,
                wi == self.image_width as int,
                hi == height as int,
                nsi == self.num_samples as int,
                dep == self.max_depth as int + 1,
                nsdep == nsi * dep,
                wi * hi * nsdep <= 18446744073709551615,
                pixels@.len() == j as int,
                forall|jj: int| 0 <= jj < j as int ==> (#[trigger] pixels@[jj])@.len() == wi,
                forall|jj: int, ii: int|
                    0 <= jj < j as int && 0 <= ii < pixels@[jj]@.len()
                        ==> (#[trigger] pixels@[jj]@[ii]).valid(),
                forall|jj: int, ii: int|
                    0 <= jj < j as int && 0 <= ii < pixels@[jj]@.len()
                        ==> is_sample_average(nsi, #[trigger] pixels@[jj]@[ii]),
                self.world@.len() == 0 && self.max_depth >= 1 ==> (forall|jj: int, ii: int|
                    0 <= jj < j as int && 0 <= ii < pixels@[jj]@.len()
                        ==> is_background_average(nsi, #[trigger] pixels@[jj]@[ii])),
                ((j as int) * wi) * nsi <= count as int <= ((j as int) * wi) * nsdep,
                self.all_absorbing() ==> count as int == ((j as int) * wi) * nsi,
            decreases height - j,
        {
            let mut row: Vec<Color> = Vec::new();
            let mut i: u32 = 0;
            while i < self.image_width
                invariant
                    i <= self.image_width,
                    j < height,
                    self.scene_ok(),
                    1 <= self.num_samples,
                    2 <= self.image_width,
                    2 <= height,
                    wi == self.image_width as int,
                    hi == height as int,
                    nsi == self.num_samples as int,
                    dep == self.max_depth as int + 1,
                    nsdep == nsi * dep,
                    wi * hi * nsdep <= 18446744073709551615,
                    row@.len() == i as int,
                    forall|ii: int| 0 <= ii < i as int ==> (#[trigger] row@[ii]).valid(),
                    forall|ii: int|
                        0 <= ii < i as int ==> is_sample_average(nsi, #[trigger] row@[ii]),
                    self.world@.len() == 0 && self.max_depth >= 1 ==> (forall|ii: int|
                        0 <= ii < i as int ==> is_background_average(nsi, #[trigger] row@[ii])),
                    ((j as int) * wi + i as int) * nsi <= count as int <= ((j as int) * wi
                        + i as int) * nsdep,
                    self.all_absorbing() ==> count as int == ((j as int) * wi + i as int) * nsi,
                decreases self.image_width - i,
            {
                let ghost done: int = (j as int) * wi + i as int;
                proof {
                    lemma_step_bounds(done, wi, hi, nsi, nsdep, dep, j as int, i as int,
                        count as int);
                }
                progress.advance();
                let c = self.pixel_color(i, j, height, rng, &mut count);
                row.push(c);
                i = i + 1;
            }
            proof {
                assert((j as int) * wi + wi == ((j as int) + 1) * wi) by (nonlinear_arith);
            }
            pixels.push(row);
            j = j + 1;
        }
        progress.advance();
        proof {
            lemma_budget_shape(wi, hi, nsi, dep);
            assert((hi * wi) * nsi == wi * hi * nsi) by (nonlinear_arith);
            assert((hi * wi) * nsdep == wi * hi * nsdep) by (nonlinear_arith)
                requires nsdep == nsi * dep;
        }
        Ok(RenderOutput { pixels, num_rays: count })
    }
}

/// The grouping used by the counting loops equals the declared ray budget.
proof fn lemma_budget_shape(wi: int, hi: int, nsi: int, dep: int)
    ensures
        wi * hi * nsi * dep == (wi * hi) * (nsi * dep),
{
    assert(wi * hi * nsi * dep == (wi * hi) * (nsi * dep)) by (nonlinear_arith);
}

/// Stepping one pixel keeps the counter within budget and leaves room for
/// the next pixel's worst case.
proof fn lemma_step_bounds(done: int, wi: int, hi: int, nsi: int, nsdep: int, dep: int, j: int,
    i: int, count: int)
    requires
        done == j * wi + i,
        0 <= j < hi,
        0 <= i < wi,
        0 <= nsi,
        1 <= dep,
        nsdep == nsi * dep,
        wi * hi * nsdep <= 18446744073709551615,
        done * nsi <= count <= done * nsdep,
    ensures
        count + nsdep <= 18446744073709551615,
        (done + 1) * nsi == done * nsi + nsi,
        (done + 1) * nsdep == done * nsdep + nsdep,
        done + 1 <= hi * wi,
    {
        assert(nsi <= nsdep) by (nonlinear_arith)
            requires nsdep == nsi * dep, 1 <= dep, 0 <= nsi;
        assert(0 <= done * nsi) by (nonlinear_arith)
            requires 0 <= done, 0 <= nsi;
        assert((done + 1) * nsi == done * nsi + nsi) by (nonlinear_arith);
        assert((done + 1) * nsdep == done * nsdep + nsdep) by (nonlinear_arith);
        assert(done + 1 <= hi * wi) by (nonlinear_arith)
            requires done == j * wi + i, 0 <= j < hi, 0 <= i < wi;
        assert((done + 1) * nsdep <= (hi * wi) * nsdep) by (nonlinear_arith)
            requires done + 1 <= hi * wi, 0 <= nsdep;
        assert((hi * wi) * nsdep == wi * hi * nsdep) by (nonlinear_arith);
    }

/// Whether one sphere is acceptable, exactly as `Sphere::valid` says.
fn sphere_ok<M>(s: &Sphere<M>) -> (b: bool)
    ensures
        b == s.valid(),
{
    -COORD_LIMIT <= s.center.x && s.center.x <= COORD_LIMIT && -COORD_LIMIT <= s.center.y
        && s.center.y <= COORD_LIMIT && -COORD_LIMIT <= s.center.z && s.center.z <= COORD_LIMIT
        && 0 < s.radius && s.radius <= COORD_LIMIT
}

/// The image-plane coordinate of pixel `k` jittered by `jitter`, over
/// `n - 1` intervals: `(k * SCALE + jitter) / (n - 1)`.
fn sample_coord(k: u32, jitter: i64, n: u32) -> (u: i64)
    requires
        2 <= n,
        k < n,
        0 <= jitter < SCALE,
    ensures
        u == ((k as int) * (SCALE as int) + jitter) / (n as int - 1),
        0 <= u <= 2 * SCALE,
{
    let num = (k as i64) * SCALE + jitter;
    let den = (n - 1) as i64;
    proof {
        lemma_div_pos_is_pos(num as int, den as int);
        assert((k as int) * (SCALE as int) <= (n as int - 1) * (SCALE as int))
            by (nonlinear_arith)
            requires k as int <= n as int - 1, 0 <= SCALE as int;
        assert((n as int - 1) * (SCALE as int) + (SCALE as int) <= (n as int - 1) * (2 * (
        SCALE as int))) by (nonlinear_arith)
            requires 1 <= n as int - 1, 0 < SCALE as int;
        lemma_div_is_ordered(num as int, (n as int - 1) * (2 * (SCALE as int)), n as int - 1);
        lemma_div_multiples_vanish(2 * (SCALE as int), n as int - 1);
    }
    num / den
}

} // verus!
