//! The integrator: depth termination, background misses, energy bounds.

use ray_tracer::collide::{Collidable, Sphere};
use ray_tracer::entropy::Entropy;
use ray_tracer::fixed::SCALE;
use ray_tracer::material::{Lambert, Material};
use ray_tracer::ray::{Ray, T_CAP};
use ray_tracer::vector::Vec3;

const T_MIN: i64 = 66;

#[test]
fn points_along_the_ray() {
    let r = Ray::new(Vec3::new(SCALE, 0, -SCALE), Vec3::new(0, 2 * SCALE, SCALE));
    assert_eq!(r.at(0), r.point);
    assert_eq!(r.at(SCALE), Vec3::new(SCALE, 2 * SCALE, 0));
    assert_eq!(r.at(32768), Vec3::new(SCALE, SCALE, -32768));
}

#[test]
fn zero_depth_is_exactly_black() {
    // Even with a sphere dead ahead, an exhausted budget returns black.
    let scene = vec![Collidable::Sphere(Sphere::new(Vec3::new(0, 0, -2 * SCALE), SCALE, 0))];
    let mats = vec![Material::Lambert(Lambert::new(Vec3::new(SCALE, SCALE, SCALE)))];
    let sky = Vec3::new(32768, 45875, SCALE);
    let ray = Ray::new(Vec3::zero(), Vec3::new(0, 0, -SCALE));
    let mut e = Entropy::new(5);
    let c = ray.color(&sky, &scene, &mats, T_MIN, T_CAP, 0, &mut e);
    assert_eq!(c, Vec3::zero());
    assert_eq!(e.state, 5);
}

#[test]
fn a_miss_returns_the_background_blend() {
    let scene: Vec<Collidable> = vec![];
    let mats: Vec<Material> = vec![];
    let sky = Vec3::new(32768, 45875, SCALE);
    let mut e = Entropy::new(5);
    // Straight up: the blend weight is one, the color is the sky itself.
    let up = Ray::new(Vec3::zero(), Vec3::new(0, SCALE, 0));
    assert_eq!(up.color(&sky, &scene, &mats, T_MIN, T_CAP, 8, &mut e), sky);
    // A diagonal: a proper blend of white and sky.
    let diag = Ray::new(Vec3::zero(), Vec3::new(0, SCALE, -SCALE));
    assert_eq!(
        diag.color(&sky, &scene, &mats, T_MIN, T_CAP, 8, &mut e),
        Vec3::new(37567, 48754, SCALE)
    );
    // No entropy is consumed by a miss.
    assert_eq!(e.state, 5);
}

#[test]
fn a_white_sky_background_is_exactly_white() {
    let scene: Vec<Collidable> = vec![];
    let mats: Vec<Material> = vec![];
    let sky = Vec3::one();
    let mut e = Entropy::new(5);
    let ray = Ray::new(Vec3::zero(), Vec3::new(12345, -7777, SCALE));
    assert_eq!(ray.color(&sky, &scene, &mats, T_MIN, T_CAP, 8, &mut e), Vec3::one());
}

#[test]
fn bounced_color_follows_the_stream_and_stays_in_range() {
    // A small diffuse scene: a huge ground sphere and one sphere resting on
    // it. Traced from a fixed seed the color is reproducible exactly.
    let scene = vec![
        Collidable::Sphere(Sphere::new(Vec3::new(0, -6717440, -SCALE), 6553600, 0)),
        Collidable::Sphere(Sphere::new(Vec3::new(0, 0, -SCALE), 32768, 1)),
    ];
    let mats = vec![
        Material::Lambert(Lambert::new(Vec3::new(52429, 52429, 0))),
        Material::Lambert(Lambert::new(Vec3::new(6554, 13107, 32768))),
    ];
    let sky = Vec3::new(32768, 45875, SCALE);
    let ray = Ray::new(Vec3::new(0, 0, 2 * SCALE), Vec3::new(0, 0, -SCALE));
    let mut e = Entropy::new(123);
    let c = ray.color(&sky, &scene, &mats, T_MIN, T_CAP, 8, &mut e);
    assert_eq!(c, Vec3::new(2702, 7437, 0));
    assert_eq!(e.state, 2653014084257180639);
    // Energy is never created: every channel stays within [0, 1].
    for ch in [c.x, c.y, c.z] {
        assert!(0 <= ch && ch <= SCALE);
    }
}

#[test]
fn dangling_material_indices_absorb() {
    // The sphere names a material the arena does not hold: treated as
    // absorbed, not a fault.
    let scene = vec![Collidable::Sphere(Sphere::new(Vec3::new(0, 0, -2 * SCALE), SCALE, 3))];
    let mats = vec![Material::Lambert(Lambert::new(Vec3::new(SCALE, SCALE, SCALE)))];
    let sky = Vec3::one();
    let ray = Ray::new(Vec3::zero(), Vec3::new(0, 0, -SCALE));
    let mut e = Entropy::new(5);
    assert_eq!(ray.color(&sky, &scene, &mats, T_MIN, T_CAP, 8, &mut e), Vec3::zero());
}

#[test]
fn degenerate_rays_are_absorbed() {
    let scene: Vec<Collidable> = vec![];
    let mats: Vec<Material> = vec![];
    let sky = Vec3::one();
    let zero_dir = Ray::new(Vec3::zero(), Vec3::zero());
    let mut e = Entropy::new(5);
    assert_eq!(zero_dir.color(&sky, &scene, &mats, T_MIN, T_CAP, 8, &mut e), Vec3::zero());
}
