//! Sphere intersection and nearest-hit selection.

use ray_tracer::collide::{find_closest_collision, Collidable, Sphere};
use ray_tracer::fixed::SCALE;
use ray_tracer::ray::{Ray, T_CAP};
use ray_tracer::vector::Vec3;

const T_MIN: i64 = 66;

#[test]
fn ray_at_center_hits_at_the_distance_to_the_surface() {
    // A unit sphere two units ahead: the surface is one unit away.
    let s = Sphere::new(Vec3::new(0, 0, -2 * SCALE), SCALE, 0);
    let ray = Ray::new(Vec3::zero(), Vec3::new(0, 0, -SCALE));
    let c = s.collision(&ray, T_MIN, T_CAP).unwrap();
    assert_eq!(c.t, SCALE);
    assert_eq!(c.point, Vec3::new(0, 0, -SCALE));
    // The normal is parallel to (point - center) and of unit length.
    assert_eq!(c.normal, Vec3::new(0, 0, SCALE));
    assert!(c.front_face);
    assert_eq!(c.material, 0);
}

#[test]
fn normal_faces_the_incoming_ray() {
    let s = Sphere::new(Vec3::new(0, 0, -3 * SCALE), 2 * SCALE, 0);
    // A slanted ray that still strikes the sphere.
    let ray = Ray::new(Vec3::new(0, 32768, 0), Vec3::new(9000, -4000, -SCALE));
    let c = s.collision(&ray, T_MIN, T_CAP).unwrap();
    assert!(ray.direction.dot(&c.normal) <= 0);
    // From inside the same sphere the flipped normal still faces the ray.
    let inside = Ray::new(Vec3::new(0, 0, -3 * SCALE), Vec3::new(0, 0, -SCALE));
    let ci = s.collision(&inside, T_MIN, T_CAP).unwrap();
    assert!(inside.direction.dot(&ci.normal) <= 0);
    assert!(!ci.front_face);
}

#[test]
fn miss_and_out_of_range_give_no_collision() {
    let s = Sphere::new(Vec3::new(0, 0, -2 * SCALE), SCALE, 0);
    // Pointing away.
    let away = Ray::new(Vec3::zero(), Vec3::new(0, 0, SCALE));
    assert!(s.collision(&away, T_MIN, T_CAP).is_none());
    // Too near a far bound: the surface is at t = 1.
    let ray = Ray::new(Vec3::zero(), Vec3::new(0, 0, -SCALE));
    assert!(s.collision(&ray, T_MIN, SCALE / 2).is_none());
    // A near bound beyond both roots.
    assert!(s.collision(&ray, 4 * SCALE, T_CAP).is_none());
}

#[test]
fn near_bound_skips_to_the_far_root() {
    // Both roots are positive (t = 1 and t = 3); a near bound of 2 selects
    // the far root, on the back side of the sphere.
    let s = Sphere::new(Vec3::new(0, 0, -2 * SCALE), SCALE, 0);
    let ray = Ray::new(Vec3::zero(), Vec3::new(0, 0, -SCALE));
    let c = s.collision(&ray, 2 * SCALE, T_CAP).unwrap();
    assert_eq!(c.t, 3 * SCALE);
    assert!(!c.front_face);
}

#[test]
fn nearest_hit_wins_over_insertion_order() {
    // The farther sphere comes first in the scene; the nearer one must win.
    let far = Collidable::Sphere(Sphere::new(Vec3::new(0, 0, -6 * SCALE), SCALE, 1));
    let near = Collidable::Sphere(Sphere::new(Vec3::new(0, 0, -2 * SCALE), SCALE, 0));
    let scene = vec![far, near];
    let ray = Ray::new(Vec3::zero(), Vec3::new(0, 0, -SCALE));
    let c = find_closest_collision(&scene, &ray, T_MIN, T_CAP).unwrap();
    assert_eq!(c.t, SCALE);
    assert_eq!(c.material, 0);
}

#[test]
fn ties_keep_the_earlier_object() {
    let a = Collidable::Sphere(Sphere::new(Vec3::new(0, 0, -2 * SCALE), SCALE, 7));
    let b = Collidable::Sphere(Sphere::new(Vec3::new(0, 0, -2 * SCALE), SCALE, 9));
    let scene = vec![a, b];
    let ray = Ray::new(Vec3::zero(), Vec3::new(0, 0, -SCALE));
    let c = find_closest_collision(&scene, &ray, T_MIN, T_CAP).unwrap();
    assert_eq!(c.material, 7);
}

#[test]
fn empty_scene_has_no_collision() {
    let scene: Vec<Collidable> = vec![];
    let ray = Ray::new(Vec3::zero(), Vec3::new(0, 0, -SCALE));
    assert!(find_closest_collision(&scene, &ray, T_MIN, T_CAP).is_none());
}
