//! Camera state derivation and ray generation.

use ray_tracer::camera::Camera;
use ray_tracer::entropy::Entropy;
use ray_tracer::fixed::SCALE;
use ray_tracer::vector::Vec3;

/// The demo setup: looking from (-3, 1, 2) at (0, 0, -1), a 20-degree
/// vertical field of view at 16:9.
fn demo_camera(aperture: i64) -> Camera {
    let look_from = Vec3::new(-3 * SCALE, SCALE, 2 * SCALE);
    let look_at = Vec3::new(0, 0, -SCALE);
    let focus = look_from.sub(&look_at).magnitude();
    let mut cam = Camera::new();
    cam.look_from(look_from);
    cam.look_at(look_at);
    cam.set_up(Vec3::new(0, SCALE, 0));
    cam.set_vertical_fov(20 * SCALE);
    cam.set_aspect_ratio(ray_tracer::fixed::fx_div(16 * SCALE, 9 * SCALE));
    cam.set_aperture(aperture);
    cam.set_focus_distance(focus);
    cam.update();
    cam
}

#[test]
fn update_derives_the_viewport() {
    let cam = demo_camera(45875);
    assert_eq!(cam.direction, Vec3::new(-45105, 15035, 45105));
    assert_eq!(cam.focus_distance, 285664);
    assert_eq!(cam.u_axis, Vec3::new(46341, 0, 46341));
    assert_eq!(cam.v_axis, Vec3::new(10631, 63788, -10631));
    assert_eq!(cam.horizontal, Vec3::new(126625, 0, 126625));
    assert_eq!(cam.vertical, Vec3::new(16337, 98044, -16337));
    assert_eq!(cam.lower_left_corner, Vec3::new(-71481, -49021, -120679));
}

#[test]
fn a_closed_aperture_emits_rays_from_the_origin() {
    let cam = demo_camera(0);
    let mut e = Entropy::new(3);
    let ray = cam.get_ray(32768, 32768, &mut e);
    assert_eq!(ray.point, cam.origin);
    assert_eq!(ray.direction, Vec3::new(196607, -65535, -196607));
    // The lens jitter drew from the stream even though it was scaled away.
    assert_eq!(e.state, 5991960103029929709);
}

#[test]
fn an_open_aperture_jitters_the_origin() {
    let cam = demo_camera(45875);
    let mut e = Entropy::new(3);
    let ray = cam.get_ray(32768, 32768, &mut e);
    assert_ne!(ray.point, cam.origin);
    // The emitted ray still points at the same viewport point: origin plus
    // direction is independent of the lens offset.
    let target = cam.origin.add(&Vec3::new(196607, -65535, -196607));
    assert_eq!(ray.point.add(&ray.direction), target);
}

#[test]
fn setters_keep_the_rest_of_the_state() {
    let mut cam = Camera::new();
    cam.set_aperture(7);
    cam.set_vertical_fov(90 * SCALE);
    assert_eq!(cam.aperture, 7);
    assert_eq!(cam.vertical_fov, 90 * SCALE);
    assert_eq!(cam.origin, Vec3::zero());
}
