//! The pixel pipeline: averaging, gamma, and byte-for-byte reproducibility.

use ray_tracer::camera::Camera;
use ray_tracer::collide::{Collidable, Sphere};
use ray_tracer::entropy::Entropy;
use ray_tracer::fixed::SCALE;
use ray_tracer::material::{Dielectric, Lambert, Material, Metal};
use ray_tracer::ray::T_CAP;
use ray_tracer::vector::Vec3;
use ray_tracer::world::World;

fn demo_camera() -> Camera {
    let look_from = Vec3::new(-3 * SCALE, SCALE, 2 * SCALE);
    let look_at = Vec3::new(0, 0, -SCALE);
    let focus = look_from.sub(&look_at).magnitude();
    let mut cam = Camera::new();
    cam.look_from(look_from);
    cam.look_at(look_at);
    cam.set_up(Vec3::new(0, SCALE, 0));
    cam.set_vertical_fov(20 * SCALE);
    cam.set_aspect_ratio(ray_tracer::fixed::fx_div(16 * SCALE, 9 * SCALE));
    cam.set_aperture(45875);
    cam.set_focus_distance(focus);
    cam.update();
    cam
}

fn demo_world() -> World {
    let collidables = vec![
        Collidable::Sphere(Sphere::new(Vec3::new(0, -6717440, -SCALE), 6553600, 0)),
        Collidable::Sphere(Sphere::new(Vec3::new(0, 0, -SCALE), 32768, 1)),
        Collidable::Sphere(Sphere::new(Vec3::new(SCALE, 0, -SCALE), 32768, 2)),
        Collidable::Sphere(Sphere::new(Vec3::new(-SCALE, 0, -SCALE), 32768, 3)),
        Collidable::Sphere(Sphere::new(Vec3::new(-SCALE, 0, -SCALE), -29491, 3)),
    ];
    let materials = vec![
        Material::Lambert(Lambert::new(Vec3::new(52429, 52429, 0))),
        Material::Lambert(Lambert::new(Vec3::new(6554, 13107, 32768))),
        Material::Metal(Metal::new(Vec3::new(52429, 39322, 13107), 0)),
        Material::Dielectric(Dielectric::new(98304)),
    ];
    let sky = Vec3::new(32768, 45875, SCALE);
    World::new(sky, collidables, materials, 66, T_CAP, 16, 4)
}

#[test]
fn an_empty_scene_under_a_white_sky_renders_white() {
    let world = World::new(Vec3::one(), vec![], vec![], 66, T_CAP, 8, 4);
    let cam = demo_camera();
    let mut e = Entropy::new(9001);
    let c = world.pixel_color(3, 2, 8, 6, &cam, &mut e);
    assert_eq!((c.r, c.g, c.b), (255, 255, 255));
}

#[test]
fn a_missed_pixel_is_the_gamma_corrected_background() {
    // Two samples over an empty scene: the whole pipeline — jitter, lens,
    // background blend, averaging, gamma, conversion — is pinned exactly.
    let sky = Vec3::new(32768, 45875, SCALE);
    let world = World::new(sky, vec![], vec![], 66, T_CAP, 4, 2);
    let cam = demo_camera();
    let mut e = Entropy::new(77);
    let c = world.pixel_color(5, 1, 8, 6, &cam, &mut e);
    assert_eq!((c.r, c.g, c.b), (231, 241, 255));
    assert_eq!(e.state, 18130408196750559637);
}

#[test]
fn a_scene_pixel_follows_the_stream_exactly() {
    let world = demo_world();
    let cam = demo_camera();
    let mut e = Entropy::new(908);
    let c = world.pixel_color(4, 3, 8, 6, &cam, &mut e);
    assert_eq!((c.r, c.g, c.b), (97, 116, 145));
    assert_eq!(e.state, 11245250406549580024);
}

#[test]
fn channels_never_leave_the_byte_range() {
    let world = demo_world();
    let cam = demo_camera();
    let mut e = Entropy::new(31337);
    for y in 0..6usize {
        for x in 0..8usize {
            let c = world.pixel_color(x, y, 8, 6, &cam, &mut e);
            assert!(c.r <= 255 && c.g <= 255 && c.b <= 255);
        }
    }
}

#[test]
fn renders_are_reproducible_from_the_seed() {
    let world = demo_world();
    let cam = demo_camera();
    let mut first: Vec<(u32, u32, u32)> = Vec::new();
    let mut second: Vec<(u32, u32, u32)> = Vec::new();
    let mut e1 = Entropy::new(2024);
    for y in 0..6usize {
        for x in 0..8usize {
            let c = world.pixel_color(x, y, 8, 6, &cam, &mut e1);
            first.push((c.r, c.g, c.b));
        }
    }
    let mut e2 = Entropy::new(2024);
    for y in 0..6usize {
        for x in 0..8usize {
            let c = world.pixel_color(x, y, 8, 6, &cam, &mut e2);
            second.push((c.r, c.g, c.b));
        }
    }
    assert_eq!(first, second);
    assert_eq!(e1.state, e2.state);
    // The render is not a constant image.
    assert!(first.iter().any(|p| *p != first[0]));
}
