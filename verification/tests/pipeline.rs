use based::camera::{Camera, SimpleCamera};
use based::color::{background, Color};
use based::hittable::Sphere;
use based::material::Absorbing;
use based::progress::{ProgressSink, SilentProgress};
use based::random::{RandomSource, ThreadRandom};
use based::renderer::{RenderError, Renderer};
use based::vec3::Vec3;
use based::SCALE;

fn test_camera() -> SimpleCamera {
    SimpleCamera::new(
        Vec3::new(0, 0, 0),
        Vec3::new(-2 * SCALE, -SCALE, -SCALE),
        Vec3::new(4 * SCALE, 0, 0),
        Vec3::new(0, 2 * SCALE, 0),
    )
    .unwrap()
}

fn one_sphere() -> Vec<Sphere<Absorbing>> {
    vec![Sphere { center: Vec3::new(0, 0, -2 * SCALE), radius: SCALE / 2, material: Absorbing }]
}

/// A deterministic, seedable jitter source.
struct Lcg(u64);

impl RandomSource for Lcg {
    fn next_unit(&mut self) -> i64 {
        self.0 = self
            .0
            .wrapping_mul(6364136223846793005)
            .wrapping_add(1442695040888963407);
        ((self.0 >> 33) % (SCALE as u64)) as i64
    }
}

/// Counts how often the renderer advances it.
struct CountingProgress(u64);

impl ProgressSink for CountingProgress {
    fn advance(&mut self) {
        self.0 += 1;
    }
}

/// A source with no jitter at all: every sample is the pixel corner.
struct NoJitter;

impl RandomSource for NoJitter {
    fn next_unit(&mut self) -> i64 {
        0
    }
}

#[test]
fn thread_random_stays_below_scale() {
    let mut src = ThreadRandom;
    for _ in 0..1000 {
        let r = src.next_unit();
        assert!(0 <= r && r < SCALE);
    }
}

#[test]
fn empty_scene_pixels_match_gradient() {
    // Without jitter, each pixel of an empty scene is exactly the background
    // gradient of its primary ray.
    let r = Renderer::new(Vec::<Sphere<Absorbing>>::new(), test_camera())
        .width(4)
        .aspect_ratio(2, 1)
        .num_samples(1);
    let out = r.render(&mut NoJitter, &mut SilentProgress).unwrap();
    assert_eq!(out.pixels.len(), 2);
    let cam = test_camera();
    for j in 0..2u32 {
        assert_eq!(out.pixels[j as usize].len(), 4);
        for i in 0..4u32 {
            let u = (i as i64) * SCALE / 3;
            let v = (j as i64) * SCALE / 1;
            let ray = cam.make_ray(u, v);
            let expected = background(&ray.direction);
            assert_eq!(out.pixels[j as usize][i as usize], expected);
        }
    }
}

#[test]
fn ray_count_is_exact_for_empty_scene() {
    // No sphere, so no scatter: exactly one ray per sample of every pixel.
    let r = Renderer::new(Vec::<Sphere<Absorbing>>::new(), test_camera())
        .width(4)
        .aspect_ratio(2, 1)
        .num_samples(3);
    let out = r.render(&mut Lcg(7), &mut SilentProgress).unwrap();
    assert_eq!(out.num_rays, 4 * 2 * 3);
}

#[test]
fn ray_count_within_bounds_with_spheres() {
    // The sphere absorbs, so no path ever continues: the count is exactly
    // one ray per sample.
    let r = Renderer::new(one_sphere(), test_camera())
        .width(8)
        .aspect_ratio(2, 1)
        .num_samples(2);
    let out = r.render(&mut Lcg(11), &mut SilentProgress).unwrap();
    assert_eq!(out.num_rays, 8 * 4 * 2);
}

#[test]
fn seeded_renders_are_identical() {
    let mk = || {
        Renderer::new(one_sphere(), test_camera())
            .width(6)
            .aspect_ratio(3, 2)
            .num_samples(1)
    };
    let a = mk().render(&mut Lcg(42), &mut SilentProgress).unwrap();
    let b = mk().render(&mut Lcg(42), &mut SilentProgress).unwrap();
    assert_eq!(a.pixels, b.pixels);
    assert_eq!(a.num_rays, b.num_rays);
}

#[test]
fn batched_samples_average_like_single_samples() {
    // One pixel sampled k times at once equals the external average of k
    // single-sample runs drawing the same jitter stream.
    let k: u16 = 5;
    let batched = Renderer::new(Vec::<Sphere<Absorbing>>::new(), test_camera())
        .width(4)
        .aspect_ratio(2, 1)
        .num_samples(k);
    let mut rng_a = Lcg(99);
    let mut count_a: u64 = 0;
    let got = batched.pixel_color(1, 0, 2, &mut rng_a, &mut count_a);

    let single = Renderer::new(Vec::<Sphere<Absorbing>>::new(), test_camera())
        .width(4)
        .aspect_ratio(2, 1)
        .num_samples(1);
    let mut rng_b = Lcg(99);
    let mut count_b: u64 = 0;
    let mut sum = (0i64, 0i64, 0i64);
    for _ in 0..k {
        let c = single.pixel_color(1, 0, 2, &mut rng_b, &mut count_b);
        sum = (sum.0 + c.r, sum.1 + c.g, sum.2 + c.b);
    }
    let avg = Color::new(sum.0 / k as i64, sum.1 / k as i64, sum.2 / k as i64);
    assert_eq!(got, avg);
    assert_eq!(count_a, count_b);
}

#[test]
fn zero_aspect_is_rejected() {
    let r = Renderer::new(one_sphere(), test_camera()).aspect_ratio(0, 1);
    assert_eq!(r.render(&mut NoJitter, &mut SilentProgress).unwrap_err(), RenderError::InvalidAspect);
    let r = Renderer::new(one_sphere(), test_camera()).aspect_ratio(1, 0);
    assert_eq!(r.render(&mut NoJitter, &mut SilentProgress).unwrap_err(), RenderError::InvalidAspect);
}

#[test]
fn tiny_images_are_rejected() {
    let r = Renderer::new(one_sphere(), test_camera()).width(1);
    assert_eq!(r.render(&mut NoJitter, &mut SilentProgress).unwrap_err(), RenderError::ImageTooSmall);
    // Width 2 at 16:9 derives height 1.
    let r = Renderer::new(one_sphere(), test_camera()).width(2);
    assert_eq!(r.render(&mut NoJitter, &mut SilentProgress).unwrap_err(), RenderError::ImageTooSmall);
}

#[test]
fn oversized_height_is_rejected() {
    let r = Renderer::new(one_sphere(), test_camera())
        .width(4294967295)
        .aspect_ratio(1, 2);
    assert_eq!(r.render(&mut NoJitter, &mut SilentProgress).unwrap_err(), RenderError::ImageTooTall);
}

#[test]
fn zero_samples_are_rejected() {
    let r = Renderer::new(one_sphere(), test_camera()).num_samples(0);
    assert_eq!(r.render(&mut NoJitter, &mut SilentProgress).unwrap_err(), RenderError::NoSamples);
}

#[test]
fn oversized_ray_budget_is_rejected() {
    let r = Renderer::new(one_sphere(), test_camera())
        .width(4294967295)
        .aspect_ratio(1, 1);
    assert_eq!(r.render(&mut NoJitter, &mut SilentProgress).unwrap_err(), RenderError::TooManyRays);
}

#[test]
fn degenerate_sphere_is_rejected() {
    let world = vec![Sphere { center: Vec3::new(0, 0, 0), radius: 0, material: Absorbing }];
    let r = Renderer::new(world, test_camera()).width(4).aspect_ratio(2, 1);
    assert_eq!(r.render(&mut NoJitter, &mut SilentProgress).unwrap_err(), RenderError::InvalidScene);
}

#[test]
fn camera_rejects_degenerate_frames() {
    // A viewport in the origin's own plane could make a zero direction.
    let c = SimpleCamera::new(
        Vec3::new(0, 0, 0),
        Vec3::new(-SCALE, -SCALE, 0),
        Vec3::new(2 * SCALE, 0, 0),
        Vec3::new(0, 2 * SCALE, 0),
    );
    assert!(c.is_none());
    // A frame vector out of range.
    let c = SimpleCamera::new(
        Vec3::new(0, 0, 0),
        Vec3::new(-SCALE, -SCALE, -SCALE),
        Vec3::new(999_999_999, 0, 0),
        Vec3::new(0, 2 * SCALE, 0),
    );
    assert!(c.is_none());
}

#[test]
fn progress_advances_once_per_pixel_plus_final() {
    let r = Renderer::new(one_sphere(), test_camera())
        .width(4)
        .aspect_ratio(2, 1)
        .num_samples(1);
    let mut progress = CountingProgress(0);
    r.render(&mut Lcg(3), &mut progress).unwrap();
    assert_eq!(progress.0, 4 * 2 + 1);
}

#[test]
fn refused_render_never_advances_progress() {
    let r = Renderer::new(one_sphere(), test_camera()).num_samples(0);
    let mut progress = CountingProgress(0);
    r.render(&mut NoJitter, &mut progress).unwrap_err();
    assert_eq!(progress.0, 0);
}

#[test]
fn builder_defaults_and_updates() {
    let r = Renderer::new(one_sphere(), test_camera());
    assert_eq!(r.image_width, 800);
    assert_eq!(r.aspect_num, 16);
    assert_eq!(r.aspect_den, 9);
    assert_eq!(r.num_samples, 100);
    assert_eq!(r.max_depth, 50);
    let r = r.width(320).aspect_ratio(4, 3).num_samples(7);
    assert_eq!(r.image_width, 320);
    assert_eq!(r.aspect_num, 4);
    assert_eq!(r.aspect_den, 3);
    assert_eq!(r.num_samples, 7);
    assert_eq!(r.max_depth, 50);
}
