//! Exact values of the fixed-point scalar operations, truncation included.

use ray_tracer::fixed::{fx_div, fx_mul, fx_sqrt, idiv, isqrt, mag64, muldiv, SCALE};

#[test]
fn one_times_one_is_one() {
    assert_eq!(fx_mul(SCALE, SCALE), SCALE);
}

#[test]
fn product_truncates_toward_zero() {
    // -1.5 * 0.5 = -0.75 exactly.
    assert_eq!(fx_mul(-98304, 32768), -49152);
    // 0.00001 * 0.00001 truncates to zero.
    assert_eq!(fx_mul(1, 1), 0);
    // -3/2 truncates toward zero, not toward negative infinity.
    assert_eq!(idiv(-7, 2), -3);
    assert_eq!(idiv(7, -2), -3);
    assert_eq!(idiv(-7, -2), 3);
}

#[test]
fn quotients_are_exact() {
    assert_eq!(fx_div(SCALE, 2 * SCALE), 32768);
    assert_eq!(fx_div(-SCALE, 2 * SCALE), -32768);
    assert_eq!(fx_div(3 * SCALE, 2 * SCALE), 98304);
}

#[test]
fn muldiv_combines_product_and_quotient() {
    assert_eq!(muldiv(6, 7, 2), 21);
    assert_eq!(muldiv(-6, 7, 2), -21);
    assert_eq!(muldiv(1000000007, 1000000007, 1), 1000000014000000049);
}

#[test]
fn integer_square_roots() {
    assert_eq!(isqrt(0), 0);
    assert_eq!(isqrt(15), 3);
    assert_eq!(isqrt(16), 4);
    assert_eq!(isqrt(0xFFFF_FFFF_FFFF_FFFF), 0xFFFF_FFFF);
}

#[test]
fn scalar_square_roots() {
    // sqrt(1) = 1, sqrt(4) = 2, sqrt(2) = 1.41421...
    assert_eq!(fx_sqrt(SCALE), SCALE);
    assert_eq!(fx_sqrt(4 * SCALE), 2 * SCALE);
    assert_eq!(fx_sqrt(2 * SCALE), 92681);
    assert_eq!(fx_sqrt(0), 0);
}

#[test]
fn magnitudes() {
    assert_eq!(mag64(5), 5);
    assert_eq!(mag64(-5), 5);
    assert_eq!(mag64(i64::MIN), 0x8000_0000_0000_0000);
}
