//! Fixed-point trigonometry.
//!
//! Sine and cosine are truncated Taylor series on the first quadrant,
//! extended to a full turn by the usual symmetries; the tangent is their
//! quotient. Each function's contract is its exact integer formula, stated
//! over the same truncating operations the code performs.

use crate::fixed::{
    fdiv, fmul, fx_div, fx_mul, idiv, lemma_fmul_bound, lemma_fmul_square_nonneg,
    lemma_mag_mul, lemma_quot_bound, mag, quot, SCALE,
};
use vstd::prelude::*;

verus! {

/// A half turn, in raw scalar units (pi scaled by 2^16).
pub const PI_FX: i64 = 205887;

/// A quarter turn, in raw scalar units.
pub const HALF_PI_FX: i64 = 102944;

/// A full turn, in raw scalar units.
pub const TWO_PI_FX: i64 = 411775;

/// Taylor sine on the first quadrant:
/// `x - x^3/6 + x^5/120 - x^7/5040`.
pub open spec fn sin_poly_s(x: int) -> int {
    let x2 = fmul(x, x);
    let x3 = fmul(x2, x);
    let x5 = fmul(x3, x2);
    let x7 = fmul(x5, x2);
    x - quot(x3, 6) + quot(x5, 120) - quot(x7, 5040)
}

/// Taylor cosine on the first quadrant:
/// `1 - x^2/2 + x^4/24 - x^6/720`.
pub open spec fn cos_poly_s(x: int) -> int {
    let x2 = fmul(x, x);
    let x4 = fmul(x2, x2);
    let x6 = fmul(x4, x2);
    SCALE as int - quot(x2, 2) + quot(x4, 24) - quot(x6, 720)
}

/// Sine over a full turn, by quadrant symmetry from the Taylor sine.
pub open spec fn sin_s(x: int) -> int {
    if x <= HALF_PI_FX as int {
        sin_poly_s(x)
    } else if x <= PI_FX as int {
        sin_poly_s(PI_FX as int - x)
    } else if x <= PI_FX as int + HALF_PI_FX as int {
        -sin_poly_s(x - PI_FX as int)
    } else {
        -sin_poly_s(TWO_PI_FX as int - x)
    }
}

/// Cosine over a full turn, by quadrant symmetry from the Taylor cosine.
pub open spec fn cos_s(x: int) -> int {
    if x <= HALF_PI_FX as int {
        cos_poly_s(x)
    } else if x <= PI_FX as int {
        -cos_poly_s(PI_FX as int - x)
    } else if x <= PI_FX as int + HALF_PI_FX as int {
        -cos_poly_s(x - PI_FX as int)
    } else {
        cos_poly_s(TWO_PI_FX as int - x)
    }
}

/// Tangent on the first quadrant: the sine over the cosine, with the cosine
/// held at no less than one raw unit so that near-grazing angles saturate
/// instead of dividing by zero.
pub open spec fn tan_s(x: int) -> int {
    let c = cos_poly_s(x);
    fdiv(sin_poly_s(x), if c >= 1 { c } else { 1 })
}

/// Bounds on the Taylor terms of the first-quadrant sine and cosine.
proof fn lemma_poly_bounds(x: int)
    requires
        0 <= x <= HALF_PI_FX as int,
    ensures
        0 <= fmul(x, x) <= 161704,
        mag(fmul(fmul(x, x), x)) <= 254004,
        mag(fmul(fmul(fmul(x, x), x), fmul(x, x))) <= 626731,
        mag(fmul(fmul(fmul(fmul(x, x), x), fmul(x, x)), fmul(x, x))) <= 1546400,
        mag(fmul(fmul(x, x), fmul(x, x))) <= 398989,
        mag(fmul(fmul(fmul(x, x), fmul(x, x)), fmul(x, x))) <= 984468,
        mag(sin_poly_s(x)) <= 3 * SCALE as int,
        mag(cos_poly_s(x)) <= 3 * SCALE as int,
{
    let x2 = fmul(x, x);
    let x3 = fmul(x2, x);
    let x5 = fmul(x3, x2);
    let x7 = fmul(x5, x2);
    let x4 = fmul(x2, x2);
    let x6 = fmul(x4, x2);
    lemma_fmul_square_nonneg(x);
    lemma_fmul_bound(x, x, 102944, 102944);
    lemma_fmul_bound(x2, x, 161704, 102944);
    lemma_fmul_bound(x3, x2, 254004, 161704);
    lemma_fmul_bound(x5, x2, 626731, 161704);
    lemma_fmul_bound(x2, x2, 161704, 161704);
    lemma_fmul_bound(x4, x2, 398989, 161704);
    lemma_quot_bound(x3, 6, 254004);
    lemma_quot_bound(x5, 120, 626731);
    lemma_quot_bound(x7, 5040, 1546400);
    lemma_quot_bound(x2, 2, 161704);
    lemma_quot_bound(x4, 24, 398989);
    lemma_quot_bound(x6, 720, 984468);
}

/// Taylor sine on the first quadrant.
pub fn sin_poly(x: i64) -> (r: i64)
    requires
        0 <= x <= HALF_PI_FX,
    ensures
        r == sin_poly_s(x as int),
        mag(r as int) <= 3 * SCALE as int,
{
    proof {
        lemma_poly_bounds(x as int);
    }
    let x2 = fx_mul(x, x);
    let x3 = fx_mul(x2, x);
    let x5 = fx_mul(x3, x2);
    let x7 = fx_mul(x5, x2);
    x - idiv(x3, 6) + idiv(x5, 120) - idiv(x7, 5040)
}

/// Taylor cosine on the first quadrant.
pub fn cos_poly(x: i64) -> (r: i64)
    requires
        0 <= x <= HALF_PI_FX,
    ensures
        r == cos_poly_s(x as int),
        mag(r as int) <= 3 * SCALE as int,
{
    proof {
        lemma_poly_bounds(x as int);
    }
    let x2 = fx_mul(x, x);
    let x4 = fx_mul(x2, x2);
    let x6 = fx_mul(x4, x2);
    SCALE - idiv(x2, 2) + idiv(x4, 24) - idiv(x6, 720)
}

/// Sine over a full turn.
pub fn sin_fx(x: i64) -> (r: i64)
    requires
        0 <= x <= TWO_PI_FX,
    ensures
        r == sin_s(x as int),
        mag(r as int) <= 3 * SCALE as int,
{
    if x <= HALF_PI_FX {
        sin_poly(x)
    } else if x <= PI_FX {
        sin_poly(PI_FX - x)
    } else if x <= PI_FX + HALF_PI_FX {
        -sin_poly(x - PI_FX)
    } else {
        -sin_poly(TWO_PI_FX - x)
    }
}

/// Cosine over a full turn.
pub fn cos_fx(x: i64) -> (r: i64)
    requires
        0 <= x <= TWO_PI_FX,
    ensures
        r == cos_s(x as int),
        mag(r as int) <= 3 * SCALE as int,
{
    if x <= HALF_PI_FX {
        cos_poly(x)
    } else if x <= PI_FX {
        -cos_poly(PI_FX - x)
    } else if x <= PI_FX + HALF_PI_FX {
        -cos_poly(x - PI_FX)
    } else {
        cos_poly(TWO_PI_FX - x)
    }
}

/// Tangent on the first quadrant.
pub fn tan_fx(x: i64) -> (r: i64)
    requires
        0 <= x <= HALF_PI_FX,
    ensures
        r == tan_s(x as int),
        mag(r as int) <= 3 * SCALE as int * SCALE as int,
{
    let s = sin_poly(x);
    let c = cos_poly(x);
    let d: i64 = if c >= 1 {
        c
    } else {
        1
    };
    proof {
        lemma_mag_mul(s as int, SCALE as int);
        lemma_quot_bound(s as int * SCALE as int, d as int, 3 * SCALE as int * SCALE as int);
    }
    fx_div(s, d)
}

/// Degrees to radians: `d * pi / 180`, over raw scalars.
pub open spec fn to_radians_s(d: int) -> int {
    quot(d * PI_FX as int, 11796480)
}

/// Degrees to radians.
pub fn to_radians(d: i64) -> (r: i64)
    requires
        0 <= d <= 11796480,
    ensures
        r == to_radians_s(d as int),
        0 <= r <= PI_FX,
{
    proof {
        lemma_mag_mul(d as int, PI_FX as int);
        lemma_quot_bound(d as int * PI_FX as int, 11796480, 11796480 * PI_FX as int);
        crate::fixed::lemma_quot_mag(d as int * PI_FX as int, 11796480);
        vstd::arithmetic::div_mod::lemma_div_is_ordered(
            d as int * PI_FX as int,
            11796480 * PI_FX as int,
            11796480,
        );
        vstd::arithmetic::div_mod::lemma_div_multiples_vanish(PI_FX as int, 11796480);
        vstd::arithmetic::div_mod::lemma_div_pos_is_pos(mag(d as int * PI_FX as int), 11796480);
    }
    crate::fixed::muldiv(d, PI_FX, 11796480)
}

} // verus!
