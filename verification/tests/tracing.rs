use based::camera::SimpleCamera;
use based::color::{background, Color};
use based::hittable::{intersect_spheres, HitRecord, Sphere};
use based::material::{Absorbing, Material};
use based::ray::Ray;
use based::renderer::Renderer;
use based::vec3::Vec3;
use based::{SCALE, T_EPS, T_FAR};

fn test_camera() -> SimpleCamera {
    SimpleCamera::new(
        Vec3::new(0, 0, 0),
        Vec3::new(-2 * SCALE, -SCALE, -SCALE),
        Vec3::new(4 * SCALE, 0, 0),
        Vec3::new(0, 2 * SCALE, 0),
    )
    .unwrap()
}

/// A material that ignores the hit and always scatters the same ray with a
/// white attenuation: a path on it never ends by absorption.
struct Rescatter {
    ray: Ray,
}

impl Material for Rescatter {
    fn scatter(&self, _hit: &HitRecord, _ray: &Ray) -> Option<(Ray, Color)> {
        Some((self.ray, Color::new(SCALE, SCALE, SCALE)))
    }
}

#[test]
fn intersection_exact_values() {
    // Sphere of radius 0.5 centered two units down the -z axis; a ray from
    // the origin straight at it meets the surface at t = 1.5 exactly.
    let world = vec![Sphere {
        center: Vec3::new(0, 0, -2 * SCALE),
        radius: SCALE / 2,
        material: Absorbing,
    }];
    let ray = Ray::new(Vec3::new(0, 0, 0), Vec3::new(0, 0, -SCALE));
    let hit = intersect_spheres(&world, &ray, T_EPS, T_FAR).unwrap();
    assert_eq!(hit.sphere_index, 0);
    assert_eq!(hit.t, 1_500_000);
    assert_eq!(hit.point, Vec3::new(0, 0, -1_500_000));
    assert_eq!(hit.normal, Vec3::new(0, 0, SCALE));
}

#[test]
fn intersection_misses_beside_sphere() {
    let world = vec![Sphere {
        center: Vec3::new(0, 0, -2 * SCALE),
        radius: SCALE / 2,
        material: Absorbing,
    }];
    let ray = Ray::new(Vec3::new(0, 0, 0), Vec3::new(0, SCALE, 0));
    assert!(intersect_spheres(&world, &ray, T_EPS, T_FAR).is_none());
}

#[test]
fn nearest_hit_prefers_closer_sphere() {
    let far = Sphere { center: Vec3::new(0, 0, -4 * SCALE), radius: SCALE / 2, material: Absorbing };
    let near = Sphere { center: Vec3::new(0, 0, -2 * SCALE), radius: SCALE / 2, material: Absorbing };
    let world = vec![far, near];
    let ray = Ray::new(Vec3::new(0, 0, 0), Vec3::new(0, 0, -SCALE));
    let hit = intersect_spheres(&world, &ray, T_EPS, T_FAR).unwrap();
    assert_eq!(hit.sphere_index, 1);
    assert_eq!(hit.t, 1_500_000);
}

#[test]
fn nearest_hit_first_sphere_wins_ties() {
    let s = Sphere { center: Vec3::new(0, 0, -2 * SCALE), radius: SCALE / 2, material: Absorbing };
    let twin = Sphere { center: Vec3::new(0, 0, -2 * SCALE), radius: SCALE / 2, material: Absorbing };
    let world = vec![s, twin];
    let ray = Ray::new(Vec3::new(0, 0, 0), Vec3::new(0, 0, -SCALE));
    let hit = intersect_spheres(&world, &ray, T_EPS, T_FAR).unwrap();
    assert_eq!(hit.sphere_index, 0);
}

#[test]
fn ray_color_depth_zero_is_black_one_ray() {
    let r = Renderer::new(Vec::<Sphere<Absorbing>>::new(), test_camera());
    let ray = Ray::new(Vec3::new(0, 0, 0), Vec3::new(0, 0, -SCALE));
    let mut count: u64 = 0;
    let c = r.ray_color(&ray, 0, &mut count);
    assert_eq!(c, Color::new(0, 0, 0));
    assert_eq!(count, 1);
}

#[test]
fn ray_color_empty_scene_is_background() {
    let r = Renderer::new(Vec::<Sphere<Absorbing>>::new(), test_camera());
    let dir = Vec3::new(300_000, -400_000, -500_000);
    let ray = Ray::new(Vec3::new(0, 0, 0), dir);
    let mut count: u64 = 0;
    let c = r.ray_color(&ray, 50, &mut count);
    assert_eq!(c, background(&dir));
    assert_eq!(count, 1);
}

#[test]
fn absorbed_ray_is_black() {
    // A ray aimed straight at the center of a fully absorbing sphere.
    let world = vec![Sphere {
        center: Vec3::new(0, 0, -2 * SCALE),
        radius: SCALE / 2,
        material: Absorbing,
    }];
    let r = Renderer::new(world, test_camera());
    let ray = Ray::new(Vec3::new(0, 0, 0), Vec3::new(0, 0, -SCALE));
    let mut count: u64 = 0;
    let c = r.ray_color(&ray, 50, &mut count);
    assert_eq!(c, Color::new(0, 0, 0));
    assert_eq!(count, 1);
}

#[test]
fn endless_scatter_stops_at_depth_with_black() {
    // The material rescatters the same ray forever, so the path must end by
    // exhausting the depth budget: depth + 1 rays counted, pure black out.
    let ray = Ray::new(Vec3::new(0, 0, 0), Vec3::new(0, 0, -SCALE));
    let world = vec![Sphere {
        center: Vec3::new(0, 0, -2 * SCALE),
        radius: SCALE / 2,
        material: Rescatter { ray },
    }];
    let r = Renderer::new(world, test_camera());
    let mut count: u64 = 0;
    let c = r.ray_color(&ray, 7, &mut count);
    assert_eq!(count, 8);
    assert_eq!(c, Color::new(0, 0, 0));
}
