//! Scalar-to-integer channel conversion.

use ray_tracer::color::Color;
use ray_tracer::fixed::SCALE;
use ray_tracer::vector::Vec3;

#[test]
fn channels_convert_by_truncation() {
    // 255.999 * 1.0 truncates to 255; 255.999 * 0.5 to 127.
    let c = Color::new(SCALE, 32768, 0);
    assert_eq!((c.r, c.g, c.b), (255, 127, 0));
}

#[test]
fn negative_channels_clamp_to_zero() {
    let c = Color::new(-5, -SCALE, 1);
    assert_eq!((c.r, c.g, c.b), (0, 0, 0));
}

#[test]
fn channels_above_one_are_not_clamped() {
    // Callers clamp to [0, 1] themselves; the conversion only truncates.
    let c = Color::new(100000, 2 * SCALE, SCALE);
    assert_eq!((c.r, c.g, c.b), (390, 511, 255));
}

#[test]
fn colors_convert_from_vectors() {
    let c = Color::from(Vec3::new(SCALE, 32768, 16384));
    assert_eq!((c.r, c.g, c.b), (255, 127, 63));
}
