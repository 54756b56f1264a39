//! Exact values of the fixed-point trigonometry.

use ray_tracer::fixed::{idiv, SCALE};
use ray_tracer::trig::{cos_fx, sin_fx, tan_fx, to_radians, HALF_PI_FX, PI_FX, TWO_PI_FX};

#[test]
fn degree_conversion() {
    assert_eq!(to_radians(0), 0);
    assert_eq!(to_radians(180 * SCALE), PI_FX);
    // 90 degrees is within one raw unit of a quarter turn.
    let quarter = to_radians(90 * SCALE);
    assert!((quarter - HALF_PI_FX).abs() <= 1);
}

#[test]
fn sine_of_familiar_angles() {
    assert_eq!(sin_fx(0), 0);
    // sin 30 deg = 0.5 exactly at this precision.
    assert_eq!(sin_fx(to_radians(30 * SCALE)), 32768);
    // The symmetries: sin(pi - x) mirrors, the second half turn is negative.
    let x = to_radians(30 * SCALE);
    assert_eq!(sin_fx(PI_FX - x), sin_fx(x));
    assert_eq!(sin_fx(PI_FX + x), -sin_fx(x));
    assert_eq!(sin_fx(TWO_PI_FX - x), -sin_fx(x));
}

#[test]
fn cosine_of_familiar_angles() {
    assert_eq!(cos_fx(0), SCALE);
    // cos 60 deg = 0.5 within rounding.
    assert_eq!(cos_fx(to_radians(60 * SCALE)), 32766);
    let x = to_radians(60 * SCALE);
    assert_eq!(cos_fx(PI_FX - x), -cos_fx(x));
    assert_eq!(cos_fx(TWO_PI_FX - x), cos_fx(x));
}

#[test]
fn tangent_of_a_half_right_angle() {
    // tan 45 deg = 1 exactly at this precision.
    assert_eq!(tan_fx(idiv(to_radians(90 * SCALE), 2)), SCALE);
    assert_eq!(tan_fx(0), 0);
}
