//! Exact values of the vector operations and of the random samplers.

use ray_tracer::entropy::Entropy;
use ray_tracer::fixed::SCALE;
use ray_tracer::vector::{Axis, Vec3};

#[test]
fn constructors() {
    let v = Vec3::new(1, 2, 3);
    assert_eq!((v.x, v.y, v.z), (1, 2, 3));
    let z = Vec3::zero();
    assert_eq!((z.x, z.y, z.z), (0, 0, 0));
    let o = Vec3::one();
    assert_eq!((o.x, o.y, o.z), (SCALE, SCALE, SCALE));
}

#[test]
fn componentwise_arithmetic() {
    let a = Vec3::new(SCALE, -SCALE, 2 * SCALE);
    let b = Vec3::new(3, 4, -5);
    assert_eq!(a.add(&b), Vec3::new(SCALE + 3, -SCALE + 4, 2 * SCALE - 5));
    assert_eq!(a.sub(&b), Vec3::new(SCALE - 3, -SCALE - 4, 2 * SCALE + 5));
    assert_eq!(a.neg(), Vec3::new(-SCALE, SCALE, -2 * SCALE));
    assert_eq!(a.scale(32768), Vec3::new(32768, -32768, SCALE));
}

#[test]
fn dot_and_hadamard() {
    let a = Vec3::new(SCALE, 2 * SCALE, 3 * SCALE);
    let b = Vec3::new(4 * SCALE, 5 * SCALE, 6 * SCALE);
    // 1*4 + 2*5 + 3*6 = 32.
    assert_eq!(a.dot(&b), 32 * SCALE);
    assert_eq!(
        a.hadamard_product(&b),
        Vec3::new(4 * SCALE, 10 * SCALE, 18 * SCALE)
    );
}

#[test]
fn cross_products_of_axes() {
    let x = Vec3::new(SCALE, 0, 0);
    let y = Vec3::new(0, SCALE, 0);
    let z = Vec3::new(0, 0, SCALE);
    assert_eq!(x.cross(&y), z);
    assert_eq!(y.cross(&z), x);
    assert_eq!(y.cross(&x), z.neg());
}

#[test]
fn magnitudes_and_normalization() {
    let v = Vec3::new(3 * SCALE, 4 * SCALE, 0);
    assert_eq!(v.magnitude_squared(), 25 * SCALE);
    assert_eq!(v.magnitude(), 5 * SCALE);
    let n = v.normalized();
    // (0.6, 0.8, 0) exactly at this precision.
    assert_eq!(n, Vec3::new(39321, 52428, 0));
}

#[test]
fn reflection_about_a_normal() {
    let v = Vec3::new(SCALE, -SCALE, 0);
    let n = Vec3::new(0, SCALE, 0);
    assert_eq!(v.reflect(n), Vec3::new(SCALE, SCALE, 0));
}

#[test]
fn refraction_bends_toward_the_surface() {
    // A 45-degree incoming unit vector entering a denser medium (ratio 2/3).
    let v = Vec3::new(0, 46341, -46341).normalized();
    let n = Vec3::new(0, 0, SCALE);
    let r = v.refract(n, 43690);
    // The parallel (y) component shrinks by the ratio; the ray still points
    // into the surface.
    assert!(r.y > 0 && r.y < v.y);
    assert!(r.z < 0);
}

#[test]
fn random_clamped_follows_the_stream() {
    let mut e = Entropy::new(5);
    let v = Vec3::random_clamped(&mut e, -SCALE, SCALE);
    assert_eq!(v, Vec3::new(-32574, 53878, 3816));
}

#[test]
fn random_components_stay_in_range() {
    let mut e = Entropy::new(77);
    for _ in 0..50 {
        let v = Vec3::random(&mut e);
        for c in [v.x, v.y, v.z] {
            assert!(0 <= c && c < SCALE);
        }
    }
}

#[test]
fn random_unit_vector_follows_the_stream() {
    let mut e = Entropy::new(7);
    let v = Vec3::random_unit_vector(&mut e);
    assert_eq!(v, Vec3::new(21579, 33591, -51970));
    assert_eq!(e.state, 17628806926561717905);
    // Unit length within rounding.
    assert_eq!(v.magnitude_squared(), 65534);
}

#[test]
fn random_in_unit_sphere_follows_the_stream() {
    let mut e = Entropy::new(7);
    let v = Vec3::random_in_unit_sphere(&mut e);
    assert_eq!(v, Vec3::new(28228, -7260, 9230));
    assert!(v.magnitude_squared() <= SCALE);
}

#[test]
fn random_in_unit_disk_leaves_the_normal_axis_zero() {
    let mut e = Entropy::new(7);
    let v = Vec3::random_in_unit_disk(&mut e, Axis::Z);
    assert_eq!(v, Vec3::new(-19260, 28228, 0));
    assert!(v.magnitude_squared() <= SCALE);
    let mut e2 = Entropy::new(7);
    let w = Vec3::random_in_unit_disk(&mut e2, Axis::X);
    assert_eq!(w, Vec3::new(0, -19260, 28228));
}

#[test]
fn random_in_hemisphere_agrees_with_the_normal() {
    let mut e = Entropy::new(7);
    let n = Vec3::new(0, 0, SCALE);
    let v = Vec3::random_in_hemisphere(&mut e, &n);
    assert!(v.dot(&n) >= 0);
    let mut e2 = Entropy::new(7);
    let w = Vec3::random_in_hemisphere(&mut e2, &n.neg());
    assert!(w.dot(&n.neg()) >= 0);
}
