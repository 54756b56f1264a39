//! Scatter rules of the three materials.

use ray_tracer::collide::Collision;
use ray_tracer::entropy::Entropy;
use ray_tracer::fixed::SCALE;
use ray_tracer::material::{Dielectric, Lambert, Material, Metal};
use ray_tracer::ray::Ray;
use ray_tracer::vector::Vec3;

fn hit(point: Vec3, normal: Vec3, front_face: bool) -> Collision {
    Collision { t: SCALE, point, normal, material: 0, front_face }
}

#[test]
fn lambert_always_scatters_from_the_hit_point() {
    let m = Lambert::new(Vec3::new(32768, 16384, SCALE));
    let c = hit(Vec3::new(SCALE, 2 * SCALE, 3 * SCALE), Vec3::new(0, 0, SCALE), true);
    let ray = Ray::new(Vec3::zero(), Vec3::new(0, 0, -SCALE));
    let mut e = Entropy::new(9);
    let (scattered, att) = m.scatter(&ray, &c, &mut e).unwrap();
    assert_eq!(scattered.point, c.point);
    // Normal plus the unit vector drawn from seed 9.
    assert_eq!(scattered.direction, Vec3::new(54646, 24360, 38790));
    assert_eq!(att, Vec3::new(32768, 16384, SCALE));
}

#[test]
fn metal_mirrors_the_incoming_direction() {
    let m = Metal::new(Vec3::new(52429, 39322, 13107), 0);
    let c = hit(Vec3::zero(), Vec3::new(0, 0, SCALE), true);
    let ray = Ray::new(Vec3::new(0, 0, SCALE), Vec3::new(SCALE, 0, -SCALE));
    let mut e = Entropy::new(11);
    let (scattered, att) = m.scatter(&ray, &c, &mut e).unwrap();
    // The 45-degree incoming direction bounces up at 45 degrees.
    assert_eq!(scattered.direction, Vec3::new(46341, 0, 46341));
    assert_eq!(att, Vec3::new(52429, 39322, 13107));
}

#[test]
fn metal_absorbs_rays_fuzzed_into_the_surface() {
    // A grazing reflection with full fuzz can point into the surface.
    let m = Metal::new(Vec3::new(52429, 39322, 13107), SCALE);
    let c = hit(Vec3::zero(), Vec3::new(0, 0, SCALE), true);
    let ray = Ray::new(Vec3::new(0, 0, SCALE), Vec3::new(SCALE, 0, -200));
    let mut e = Entropy::new(0);
    assert!(m.scatter(&ray, &c, &mut e).is_none());
}

#[test]
fn metal_constructor_clamps_the_fuzz() {
    let m = Metal::new(Vec3::new(SCALE, SCALE, SCALE), 3 * SCALE);
    assert_eq!(m.fuzz, SCALE);
    let n = Metal::new(Vec3::new(SCALE, SCALE, SCALE), 5);
    assert_eq!(n.fuzz, 5);
}

#[test]
fn dielectric_reflects_at_total_internal_reflection() {
    // Leaving glass (refraction index 1.5) at sixty degrees from the
    // normal: ratio * sin exceeds one, so the ray must reflect, whatever
    // the stream would have drawn — no draw is consumed.
    let m = Dielectric::new(98304);
    let c = hit(Vec3::zero(), Vec3::new(0, 0, SCALE), false);
    let ray = Ray::new(Vec3::zero(), Vec3::new(56756, 0, -32768));
    let mut e = Entropy::new(42);
    let (scattered, att) = m.scatter(&ray, &c, &mut e).unwrap();
    assert_eq!(scattered.direction, Vec3::new(56756, 0, 32768));
    assert_eq!(att, Vec3::new(SCALE, SCALE, SCALE));
    assert_eq!(e.state, 42);
}

#[test]
fn dielectric_refracts_when_the_draw_beats_the_reflectance() {
    let m = Dielectric::new(98304);
    let c = hit(Vec3::zero(), Vec3::new(0, 0, SCALE), true);
    let ray = Ray::new(Vec3::zero(), Vec3::new(0, 46341, -46341));
    let mut e = Entropy::new(1);
    let (scattered, att) = m.scatter(&ray, &c, &mut e).unwrap();
    // Snell's law bends the ray toward the normal inside the denser glass.
    assert_eq!(scattered.direction, Vec3::new(0, 30893, -57798));
    assert_eq!(att, Vec3::new(SCALE, SCALE, SCALE));
}

#[test]
fn dielectric_reflects_when_the_draw_falls_below_the_reflectance() {
    // Seed 10 draws 1347, below the Schlick reflectance of this geometry.
    let m = Dielectric::new(98304);
    let c = hit(Vec3::zero(), Vec3::new(0, 0, SCALE), true);
    let ray = Ray::new(Vec3::zero(), Vec3::new(0, 46341, -46341));
    let mut e = Entropy::new(10);
    let (scattered, _) = m.scatter(&ray, &c, &mut e).unwrap();
    assert_eq!(scattered.direction, Vec3::new(0, 46341, 46341));
}

#[test]
fn the_material_dispatch_matches_the_variants() {
    let c = hit(Vec3::zero(), Vec3::new(0, 0, SCALE), true);
    let ray = Ray::new(Vec3::new(0, 0, SCALE), Vec3::new(SCALE, 0, -SCALE));
    let m = Material::Metal(Metal::new(Vec3::new(52429, 39322, 13107), 0));
    let mut e1 = Entropy::new(11);
    let mut e2 = Entropy::new(11);
    let inner = Metal::new(Vec3::new(52429, 39322, 13107), 0);
    assert_eq!(m.scatter(&ray, &c, &mut e1), inner.scatter(&ray, &c, &mut e2));
    assert_eq!(e1.state, e2.state);
}
