//! Three-component fixed-point vectors.
//!
//! A `Vec3` serves as point, direction and color alike; each component is a
//! fixed-point scalar. Every operation is specified exactly over the
//! integers, truncation included.

use crate::entropy::{draw_of, lemma_draw_bounds, next_state, Entropy};
use crate::fixed::{
    fdiv, fmul, fsqrt, fx_div, fx_mul, fx_sqrt, is_isqrt, lemma_fmul_bound, lemma_fmul_nonneg,
    lemma_fmul_square_nonneg, lemma_isqrt_bound, lemma_mag_mul, lemma_quot_mag, mag, SCALE,
};
use crate::trig::{cos_fx, cos_s, sin_fx, sin_s, TWO_PI_FX};
use vstd::arithmetic::div_mod::{
    lemma_div_is_ordered, lemma_div_multiples_vanish, lemma_div_pos_is_pos,
};
use vstd::prelude::*;

verus! {

/// Axis enumeration.
#[derive(Clone, Copy, Debug, PartialEq, Eq, Structural)]
pub enum Axis {
    X,
    Y,
    Z,
}

/// Largest componentwise magnitude the vector operations accept; products of
/// two such components still fit the scalar range.
pub const VEC_MAX: i64 = 0x40_0000_0000;

/// Simple three coordinate vector.
#[derive(Clone, Copy, Debug, PartialEq, Eq, Structural)]
pub struct Vec3 {
    pub x: i64,
    pub y: i64,
    pub z: i64,
}

/// `v` is a color: every component lies in `[0, 1]`.
pub open spec fn color_wf(v: Vec3) -> bool {
    0 <= v.x <= SCALE as int && 0 <= v.y <= SCALE as int && 0 <= v.z <= SCALE as int
}

/// All components of `v` are at most `b` in magnitude.
pub open spec fn vec_bounded(v: Vec3, b: int) -> bool {
    mag(v.x as int) <= b && mag(v.y as int) <= b && mag(v.z as int) <= b
}

/// Dot product of `a` and `b`.
pub open spec fn dot_s(a: Vec3, b: Vec3) -> int {
    fmul(a.x as int, b.x as int) + fmul(a.y as int, b.y as int) + fmul(a.z as int, b.z as int)
}

/// Squared magnitude of `v`.
pub open spec fn mag2_s(v: Vec3) -> int {
    dot_s(v, v)
}

/// `v` scaled by the scalar `k`.
pub open spec fn scale_s(v: Vec3, k: int) -> Vec3 {
    Vec3 {
        x: fmul(v.x as int, k) as i64,
        y: fmul(v.y as int, k) as i64,
        z: fmul(v.z as int, k) as i64,
    }
}

/// Cross product of `a` and `b`.
pub open spec fn cross_s(a: Vec3, b: Vec3) -> Vec3 {
    Vec3 {
        x: (fmul(a.y as int, b.z as int) - fmul(a.z as int, b.y as int)) as i64,
        y: (fmul(a.z as int, b.x as int) - fmul(a.x as int, b.z as int)) as i64,
        z: (fmul(a.x as int, b.y as int) - fmul(a.y as int, b.x as int)) as i64,
    }
}

/// Componentwise (Hadamard) product of `a` and `b`.
pub open spec fn hadamard_s(a: Vec3, b: Vec3) -> Vec3 {
    Vec3 {
        x: fmul(a.x as int, b.x as int) as i64,
        y: fmul(a.y as int, b.y as int) as i64,
        z: fmul(a.z as int, b.z as int) as i64,
    }
}

/// Componentwise sum of `a` and `b`.
pub open spec fn add_s(a: Vec3, b: Vec3) -> Vec3 {
    Vec3 { x: (a.x + b.x) as i64, y: (a.y + b.y) as i64, z: (a.z + b.z) as i64 }
}

/// Componentwise difference of `a` and `b`.
pub open spec fn sub_s(a: Vec3, b: Vec3) -> Vec3 {
    Vec3 { x: (a.x - b.x) as i64, y: (a.y - b.y) as i64, z: (a.z - b.z) as i64 }
}

/// `v` divided by its own magnitude, componentwise.
pub open spec fn normalized_s(v: Vec3) -> Vec3 {
    let m = fsqrt(mag2_s(v));
    Vec3 {
        x: fdiv(v.x as int, m) as i64,
        y: fdiv(v.y as int, m) as i64,
        z: fdiv(v.z as int, m) as i64,
    }
}

/// `v` mirrored about the plane normal to `n`: `v - 2 (v·n) n`.
pub open spec fn reflect_s(v: Vec3, n: Vec3) -> Vec3 {
    sub_s(v, scale_s(n, 2 * dot_s(v, n)))
}

/// A dot product with a negated operand is the negated dot product.
pub proof fn lemma_dot_neg(a: Vec3, b: Vec3)
    requires
        b.x > i64::MIN,
        b.y > i64::MIN,
        b.z > i64::MIN,
    ensures
        dot_s(a, neg_s(b)) == -dot_s(a, b),
{
    crate::fixed::lemma_fmul_neg(a.x as int, b.x as int);
    crate::fixed::lemma_fmul_neg(a.y as int, b.y as int);
    crate::fixed::lemma_fmul_neg(a.z as int, b.z as int);
}

/// Bound on a dot product from componentwise bounds on its operands.
pub proof fn lemma_dot_bound(a: Vec3, b: Vec3, ba: int, bb: int)
    requires
        vec_bounded(a, ba),
        vec_bounded(b, bb),
    ensures
        mag(dot_s(a, b)) <= 3 * ((ba * bb) / (SCALE as int)),
        -(3 * (ba * bb)) <= dot_s(a, b) <= 3 * (ba * bb),
{
    lemma_fmul_bound(a.x as int, b.x as int, ba, bb);
    lemma_fmul_bound(a.y as int, b.y as int, ba, bb);
    lemma_fmul_bound(a.z as int, b.z as int, ba, bb);
}

/// `v` bent through the surface with normal `n` by Snell's law, for the
/// given ratio of refractive indices: the sum of the parallel component
/// `ratio (v + n cos)` and the perpendicular component `-n sqrt(1 - |par|²)`,
/// with the radicand held at no less than zero so that rounding at the total
/// reflection boundary cannot ask for the square root of a negative value.
pub open spec fn refract_s(v: Vec3, n: Vec3, ratio: int) -> Vec3 {
    let cos_theta = dot_s(neg_s(v), n);
    let par = scale_s(add_s(v, scale_s(n, cos_theta)), ratio);
    let k = SCALE as int - mag2_s(par);
    let root = fsqrt(
        if k >= 0 {
            k
        } else {
            0
        },
    );
    add_s(par, scale_s(n, -root))
}

/// Additive inverse of `v`.
pub open spec fn neg_s(v: Vec3) -> Vec3 {
    Vec3 { x: (-v.x) as i64, y: (-v.y) as i64, z: (-v.z) as i64 }
}

/// One component drawn in `[min, max)` from the draw of state `s`:
/// `min + u (max - min)`.
pub open spec fn rand_in_range_s(s: u64, min: int, max: int) -> int {
    min + fmul(draw_of(s), max - min)
}

/// The vector `random_clamped` draws from state `s0`, with the state it
/// leaves behind.
pub open spec fn random_clamped_s(s0: u64, min: int, max: int) -> (Vec3, u64) {
    let s1 = next_state(s0);
    let s2 = next_state(s1);
    let s3 = next_state(s2);
    (
        Vec3 {
            x: rand_in_range_s(s1, min, max) as i64,
            y: rand_in_range_s(s2, min, max) as i64,
            z: rand_in_range_s(s3, min, max) as i64,
        },
        s3,
    )
}

/// The planar pair the disk sampler accepts within `fuel` tries. Each try
/// draws two components in `[-1, 1)` and accepts them if they lie in the
/// unit disk; exhausted fuel falls back to the center of the disk.
pub open spec fn disk_pair_s(s0: u64, fuel: nat) -> (int, int, u64)
    decreases fuel,
{
    if fuel == 0 {
        (0, 0, s0)
    } else {
        let s1 = next_state(s0);
        let a = 2 * draw_of(s1) - SCALE as int;
        let s2 = next_state(s1);
        let b = 2 * draw_of(s2) - SCALE as int;
        if fmul(a, a) + fmul(b, b) <= SCALE as int {
            (a, b, s2)
        } else {
            disk_pair_s(s2, (fuel - 1) as nat)
        }
    }
}

/// The vector the sphere sampler accepts within `fuel` tries. Each try
/// draws three components in `[-1, 1)` and accepts them if they lie in the
/// unit ball; exhausted fuel falls back to the center of the sphere.
pub open spec fn sphere_point_s(s0: u64, fuel: nat) -> (Vec3, u64)
    decreases fuel,
{
    if fuel == 0 {
        (Vec3 { x: 0i64, y: 0i64, z: 0i64 }, s0)
    } else {
        let s1 = next_state(s0);
        let s2 = next_state(s1);
        let s3 = next_state(s2);
        let p = Vec3 {
            x: (2 * draw_of(s1) - SCALE as int) as i64,
            y: (2 * draw_of(s2) - SCALE as int) as i64,
            z: (2 * draw_of(s3) - SCALE as int) as i64,
        };
        if mag2_s(p) <= SCALE as int {
            (p, s3)
        } else {
            sphere_point_s(s3, (fuel - 1) as nat)
        }
    }
}

/// The vector `random_in_unit_disk` draws from state `s0`: the accepted
/// planar pair laid into the plane normal to the chosen axis.
pub open spec fn unit_disk_s(s0: u64, axis_normal: Axis) -> (Vec3, u64) {
    let (a, b, s) = disk_pair_s(s0, REJECTION_ATTEMPTS as nat);
    let v = match axis_normal {
        Axis::X => Vec3 { x: 0i64, y: a as i64, z: b as i64 },
        Axis::Y => Vec3 { x: a as i64, y: 0i64, z: b as i64 },
        Axis::Z => Vec3 { x: a as i64, y: b as i64, z: 0i64 },
    };
    (v, s)
}

/// The vector `random_unit_vector` draws from state `s0`: polar form, an
/// angle over the full turn and a height in `[-1, 1)`.
pub open spec fn unit_vector_s(s0: u64) -> (Vec3, u64) {
    let s1 = next_state(s0);
    let a = fmul(draw_of(s1), TWO_PI_FX as int);
    let s2 = next_state(s1);
    let z = 2 * draw_of(s2) - SCALE as int;
    let r = fsqrt(SCALE as int - fmul(z, z));
    (
        Vec3 { x: fmul(r, cos_s(a)) as i64, y: fmul(r, sin_s(a)) as i64, z: z as i64 },
        s2,
    )
}

/// The vector `random_in_hemisphere` draws from state `s0`: a point of the
/// unit ball, flipped if it falls on the far side of `normal`.
pub open spec fn hemisphere_s(s0: u64, normal: Vec3) -> (Vec3, u64) {
    let (p, s) = sphere_point_s(s0, REJECTION_ATTEMPTS as nat);
    (if dot_s(p, normal) > 0 { p } else { neg_s(p) }, s)
}

/// Tries the rejection samplers make before falling back to the center.
pub const REJECTION_ATTEMPTS: u32 = 64;

/// A drawn range component stays in `[min, max)` (or equals `min` when the
/// range is empty).
pub proof fn lemma_rand_in_range(s: u64, min: int, max: int)
    requires
        min <= max,
    ensures
        min <= rand_in_range_s(s, min, max),
        min < max ==> rand_in_range_s(s, min, max) < max,
        min == max ==> rand_in_range_s(s, min, max) == min,
        mag(fmul(draw_of(s), max - min)) <= mag(max - min),
{
    lemma_draw_bounds(s);
    let d = draw_of(s);
    let w = max - min;
    lemma_mag_mul(d, w);
    lemma_quot_mag(d * w, SCALE as int);
    if w == 0 {
        assert(d * w == 0) by (nonlinear_arith)
            requires
                w == 0,
        ;
    } else {
        assert(d * w >= 0 && d * w < SCALE as int * w) by (nonlinear_arith)
            requires
                0 <= d < 65536,
                w > 0,
        ;
        lemma_div_pos_is_pos(d * w, SCALE as int);
        vstd::arithmetic::div_mod::lemma_multiply_divide_lt(d * w, SCALE as int, w);
    }
}

/// The accepted disk pair is inside the unit disk, components within one.
pub proof fn lemma_disk_pair_props(s0: u64, fuel: nat)
    ensures
        ({
            let (a, b, s) = disk_pair_s(s0, fuel);
            mag(a) <= SCALE as int && mag(b) <= SCALE as int && fmul(a, a) + fmul(b, b)
                <= SCALE as int
        }),
    decreases fuel,
{
    if fuel == 0 {
        assert(fmul(0, 0) == 0);
    } else {
        let s1 = next_state(s0);
        let a = 2 * draw_of(s1) - SCALE as int;
        let s2 = next_state(s1);
        let b = 2 * draw_of(s2) - SCALE as int;
        lemma_draw_bounds(s1);
        lemma_draw_bounds(s2);
        if fmul(a, a) + fmul(b, b) <= SCALE as int {
            lemma_fmul_square_nonneg(a);
            lemma_fmul_square_nonneg(b);
        } else {
            lemma_disk_pair_props(s2, (fuel - 1) as nat);
        }
    }
}

/// The accepted sphere point is inside the unit ball, components within one.
pub proof fn lemma_sphere_point_props(s0: u64, fuel: nat)
    ensures
        ({
            let (p, s) = sphere_point_s(s0, fuel);
            vec_bounded(p, SCALE as int) && mag2_s(p) <= SCALE as int
        }),
    decreases fuel,
{
    if fuel == 0 {
        assert(fmul(0, 0) == 0);
    } else {
        let s1 = next_state(s0);
        let s2 = next_state(s1);
        let s3 = next_state(s2);
        lemma_draw_bounds(s1);
        lemma_draw_bounds(s2);
        lemma_draw_bounds(s3);
        let p = Vec3 {
            x: (2 * draw_of(s1) - SCALE as int) as i64,
            y: (2 * draw_of(s2) - SCALE as int) as i64,
            z: (2 * draw_of(s3) - SCALE as int) as i64,
        };
        if mag2_s(p) <= SCALE as int {
        } else {
            lemma_sphere_point_props(s3, (fuel - 1) as nat);
        }
    }
}

/// A squared magnitude is nonnegative, and each component's fixed-point
/// square is at most the whole.
pub proof fn lemma_mag2_parts(v: Vec3)
    ensures
        mag2_s(v) >= 0,
        fmul(v.x as int, v.x as int) <= mag2_s(v),
        fmul(v.y as int, v.y as int) <= mag2_s(v),
        fmul(v.z as int, v.z as int) <= mag2_s(v),
{
    lemma_fmul_square_nonneg(v.x as int);
    lemma_fmul_square_nonneg(v.y as int);
    lemma_fmul_square_nonneg(v.z as int);
}

/// Components of a normalized vector are at most two whole units: if
/// `mg` is the fixed-point magnitude of `v` and `v` is not degenerate,
/// each component is at most twice `mg`, so the quotient is at most `2`.
proof fn lemma_unit_component(c: int, m2: int, mg: int)
    requires
        fmul(c, c) <= m2,
        1 <= m2,
        is_isqrt(m2 * SCALE as int, mg),
    ensures
        mg >= 256,
        mag(fdiv(c, mg)) <= 2 * SCALE as int,
{
    let s = SCALE as int;
    // mg >= 256 because (mg+1)^2 > m2 * SCALE >= SCALE = 256^2.
    assert(m2 * s >= s);
    assert(mg >= 256) by (nonlinear_arith)
        requires
            (mg + 1) * (mg + 1) > 65536,
            mg >= 0,
    ;
    // c^2 <= SCALE * fmul(c, c) + SCALE - 1 <= SCALE * m2 + SCALE - 1.
    assert(c * c >= 0) by (nonlinear_arith);
    lemma_mag_mul(c, c);
    assert(fmul(c, c) == c * c / s);
    vstd::arithmetic::div_mod::lemma_fundamental_div_mod(c * c, s);
    vstd::arithmetic::div_mod::lemma_mod_division_less_than_divisor(c * c, s);
    assert(c * c <= s * (c * c / s) + s - 1);
    assert(s * fmul(c, c) <= s * m2);
    // So c^2 <= (mg+1)^2 - 1 + SCALE - 1, and |c| <= 2 mg follows.
    let u = mag(c);
    assert(u == c || u == -c);
    assert(u >= 0);
    assert(u * u == c * c) by (nonlinear_arith)
        requires
            u == c || u == -c,
    ;
    assert(u <= 2 * mg) by (nonlinear_arith)
        requires
            u >= 0,
            mg >= 256,
            u * u <= (mg + 1) * (mg + 1) + 65534,
    ;
    // |c·SCALE / mg| <= (2 mg · SCALE) / mg = 2 SCALE.
    lemma_quot_mag(c * s, mg);
    lemma_mag_mul(c, s);
    assert(u * s <= mg * (2 * s)) by (nonlinear_arith)
        requires
            u <= 2 * mg,
            u >= 0,
            s == 65536,
            mg >= 0,
    ;
    lemma_div_is_ordered(u * s, mg * (2 * s), mg);
    lemma_div_multiples_vanish(2 * s, mg);
}

impl Vec3 {
    /// Construct a new vector.
    pub fn new(x: i64, y: i64, z: i64) -> (r: Self)
        ensures
            r == (Vec3 { x, y, z }),
    {
        Vec3 { x, y, z }
    }

    /// Construct a zero vector.
    pub fn zero() -> (r: Self)
        ensures
            r == (Vec3 { x: 0i64, y: 0i64, z: 0i64 }),
    {
        Vec3 { x: 0, y: 0, z: 0 }
    }

    /// Construct a one vector (one whole unit in every component).
    pub fn one() -> (r: Self)
        ensures
            r == (Vec3 { x: SCALE, y: SCALE, z: SCALE }),
    {
        Vec3 { x: SCALE, y: SCALE, z: SCALE }
    }

    /// Componentwise sum.
    pub fn add(&self, rhs: &Self) -> (r: Self)
        requires
            i64::MIN <= self.x + rhs.x <= i64::MAX,
            i64::MIN <= self.y + rhs.y <= i64::MAX,
            i64::MIN <= self.z + rhs.z <= i64::MAX,
        ensures
            r == add_s(*self, *rhs),
    {
        Vec3 { x: self.x + rhs.x, y: self.y + rhs.y, z: self.z + rhs.z }
    }

    /// Componentwise difference.
    pub fn sub(&self, rhs: &Self) -> (r: Self)
        requires
            i64::MIN <= self.x - rhs.x <= i64::MAX,
            i64::MIN <= self.y - rhs.y <= i64::MAX,
            i64::MIN <= self.z - rhs.z <= i64::MAX,
        ensures
            r == sub_s(*self, *rhs),
    {
        Vec3 { x: self.x - rhs.x, y: self.y - rhs.y, z: self.z - rhs.z }
    }

    /// Additive inverse.
    pub fn neg(&self) -> (r: Self)
        requires
            self.x > i64::MIN,
            self.y > i64::MIN,
            self.z > i64::MIN,
        ensures
            r == (Vec3 { x: (-self.x) as i64, y: (-self.y) as i64, z: (-self.z) as i64 }),
    {
        Vec3 { x: -self.x, y: -self.y, z: -self.z }
    }

    /// Whether every component is at most `b` in magnitude.
    pub fn bounded(&self, b: i64) -> (r: bool)
        requires
            b >= 0,
        ensures
            r == vec_bounded(*self, b as int),
    {
        -b <= self.x && self.x <= b && -b <= self.y && self.y <= b && -b <= self.z && self.z <= b
    }

    /// The vector scaled by the scalar `k`.
    pub fn scale(&self, k: i64) -> (r: Self)
        requires
            i64::MIN <= fmul(self.x as int, k as int) <= i64::MAX,
            i64::MIN <= fmul(self.y as int, k as int) <= i64::MAX,
            i64::MIN <= fmul(self.z as int, k as int) <= i64::MAX,
        ensures
            r == scale_s(*self, k as int),
    {
        Vec3 { x: fx_mul(self.x, k), y: fx_mul(self.y, k), z: fx_mul(self.z, k) }
    }

    /// Vector dot product with another vector.
    pub fn dot(&self, rhs: &Self) -> (r: i64)
        requires
            vec_bounded(*self, VEC_MAX as int),
            vec_bounded(*rhs, VEC_MAX as int),
        ensures
            r == dot_s(*self, *rhs),
    {
        proof {
            lemma_dot_bound(*self, *rhs, VEC_MAX as int, VEC_MAX as int);
            lemma_fmul_bound(self.x as int, rhs.x as int, VEC_MAX as int, VEC_MAX as int);
            lemma_fmul_bound(self.y as int, rhs.y as int, VEC_MAX as int, VEC_MAX as int);
            lemma_fmul_bound(self.z as int, rhs.z as int, VEC_MAX as int, VEC_MAX as int);
        }
        fx_mul(self.x, rhs.x) + fx_mul(self.y, rhs.y) + fx_mul(self.z, rhs.z)
    }

    /// Element-wise (Hadamard) product with another vector.
    pub fn hadamard_product(&self, rhs: &Self) -> (r: Self)
        requires
            vec_bounded(*self, VEC_MAX as int),
            vec_bounded(*rhs, VEC_MAX as int),
        ensures
            r == hadamard_s(*self, *rhs),
    {
        proof {
            lemma_fmul_bound(self.x as int, rhs.x as int, VEC_MAX as int, VEC_MAX as int);
            lemma_fmul_bound(self.y as int, rhs.y as int, VEC_MAX as int, VEC_MAX as int);
            lemma_fmul_bound(self.z as int, rhs.z as int, VEC_MAX as int, VEC_MAX as int);
        }
        Vec3 {
            x: fx_mul(self.x, rhs.x),
            y: fx_mul(self.y, rhs.y),
            z: fx_mul(self.z, rhs.z),
        }
    }

    /// Cross product operation with another vector.
    pub fn cross(&self, rhs: &Self) -> (r: Self)
        requires
            vec_bounded(*self, VEC_MAX as int),
            vec_bounded(*rhs, VEC_MAX as int),
        ensures
            r == cross_s(*self, *rhs),
    {
        proof {
            lemma_fmul_bound(self.y as int, rhs.z as int, VEC_MAX as int, VEC_MAX as int);
            lemma_fmul_bound(self.z as int, rhs.y as int, VEC_MAX as int, VEC_MAX as int);
            lemma_fmul_bound(self.z as int, rhs.x as int, VEC_MAX as int, VEC_MAX as int);
            lemma_fmul_bound(self.x as int, rhs.z as int, VEC_MAX as int, VEC_MAX as int);
            lemma_fmul_bound(self.x as int, rhs.y as int, VEC_MAX as int, VEC_MAX as int);
            lemma_fmul_bound(self.y as int, rhs.x as int, VEC_MAX as int, VEC_MAX as int);
        }
        Vec3 {
            x: fx_mul(self.y, rhs.z) - fx_mul(self.z, rhs.y),
            y: fx_mul(self.z, rhs.x) - fx_mul(self.x, rhs.z),
            z: fx_mul(self.x, rhs.y) - fx_mul(self.y, rhs.x),
        }
    }

    /// The magnitude of the vector squared.
    pub fn magnitude_squared(&self) -> (r: i64)
        requires
            vec_bounded(*self, VEC_MAX as int),
        ensures
            r == mag2_s(*self),
            r >= 0,
    {
        proof {
            lemma_mag2_parts(*self);
        }
        self.dot(self)
    }

    /// The magnitude of the vector.
    pub fn magnitude(&self) -> (r: i64)
        requires
            vec_bounded(*self, VEC_MAX as int),
        ensures
            r == fsqrt(mag2_s(*self)),
            r >= 0,
    {
        let m2 = self.magnitude_squared();
        fx_sqrt(m2)
    }

    /// Convert the vector to a unit vector (normalization). The vector must
    /// not be degenerate: its squared magnitude must be at least one raw
    /// unit. Components of the result are at most two whole units — exact
    /// normalization would give one, and truncation at most doubles it.
    pub fn normalized(&self) -> (r: Self)
        requires
            vec_bounded(*self, VEC_MAX as int),
            mag2_s(*self) >= 1,
        ensures
            r == normalized_s(*self),
            vec_bounded(r, 2 * SCALE as int),
    {
        let m2 = self.magnitude_squared();
        let m = fx_sqrt(m2);
        proof {
            lemma_mag2_parts(*self);
            lemma_unit_component(self.x as int, m2 as int, m as int);
            lemma_unit_component(self.y as int, m2 as int, m as int);
            lemma_unit_component(self.z as int, m2 as int, m as int);
        }
        Vec3 { x: fx_div(self.x, m), y: fx_div(self.y, m), z: fx_div(self.z, m) }
    }

    /// Reflect the vector via a surface normal vector.
    pub fn reflect(&self, n: Self) -> (r: Self)
        requires
            vec_bounded(*self, 0x100000),
            vec_bounded(n, 0x100000),
        ensures
            r == reflect_s(*self, n),
            vec_bounded(r, 0x2_0000_0000),
    {
        proof {
            lemma_dot_bound(*self, n, 0x100000, 0x100000);
            lemma_fmul_bound(n.x as int, 2 * dot_s(*self, n), 0x100000, 0x600_0000);
            lemma_fmul_bound(n.y as int, 2 * dot_s(*self, n), 0x100000, 0x600_0000);
            lemma_fmul_bound(n.z as int, 2 * dot_s(*self, n), 0x100000, 0x600_0000);
        }
        let d: i64 = self.dot(&n);
        let k: i64 = 2 * d;
        Vec3 {
            x: self.x - fx_mul(n.x, k),
            y: self.y - fx_mul(n.y, k),
            z: self.z - fx_mul(n.z, k),
        }
    }

    /// Refract the vector via a surface normal vector and refractive index
    /// quotient.
    pub fn refract(&self, n: Self, etai_over_etat: i64) -> (r: Self)
        requires
            vec_bounded(*self, 0x100000),
            vec_bounded(n, 0x100000),
            mag(etai_over_etat as int) <= 0x200000,
        ensures
            r == refract_s(*self, n, etai_over_etat as int),
            vec_bounded(r, 0x20_0000_0000),
    {
        proof {
            lemma_dot_bound(neg_s(*self), n, 0x100000, 0x100000);
        }
        let cos_theta: i64 = self.neg().dot(&n);
        proof {
            lemma_fmul_bound(n.x as int, cos_theta as int, 0x100000, 0x300_0000);
            lemma_fmul_bound(n.y as int, cos_theta as int, 0x100000, 0x300_0000);
            lemma_fmul_bound(n.z as int, cos_theta as int, 0x100000, 0x300_0000);
        }
        let shifted = self.add(&n.scale(cos_theta));
        proof {
            lemma_fmul_bound(shifted.x as int, etai_over_etat as int, 0x4100_0000, 0x200000);
            lemma_fmul_bound(shifted.y as int, etai_over_etat as int, 0x4100_0000, 0x200000);
            lemma_fmul_bound(shifted.z as int, etai_over_etat as int, 0x4100_0000, 0x200000);
        }
        let par = shifted.scale(etai_over_etat);
        let m2 = par.magnitude_squared();
        let k: i64 = if SCALE - m2 >= 0 {
            SCALE - m2
        } else {
            0
        };
        let root = fx_sqrt(k);
        proof {
            lemma_isqrt_bound(k as int * SCALE as int, root as int, SCALE as int);
            lemma_fmul_bound(n.x as int, -(root as int), 0x100000, SCALE as int);
            lemma_fmul_bound(n.y as int, -(root as int), 0x100000, SCALE as int);
            lemma_fmul_bound(n.z as int, -(root as int), 0x100000, SCALE as int);
        }
        par.add(&n.scale(-root))
    }

    /// Randomized vector with components in the range `[min, max)`.
    pub fn random_clamped(rng: &mut Entropy, min: i64, max: i64) -> (r: Self)
        requires
            min <= max,
            mag(min as int) <= VEC_MAX as int,
            mag(max as int) <= VEC_MAX as int,
        ensures
            ({
                let (v, s) = random_clamped_s(old(rng).state, min as int, max as int);
                r == v && final(rng).state == s
            }),
            min <= r.x <= max,
            min <= r.y <= max,
            min <= r.z <= max,
    {
        let d1 = rng.next_unit();
        proof {
            lemma_rand_in_range(rng.state, min as int, max as int);
        }
        let x = min + fx_mul(d1, max - min);
        let d2 = rng.next_unit();
        proof {
            lemma_rand_in_range(rng.state, min as int, max as int);
        }
        let y = min + fx_mul(d2, max - min);
        let d3 = rng.next_unit();
        proof {
            lemma_rand_in_range(rng.state, min as int, max as int);
        }
        let z = min + fx_mul(d3, max - min);
        Vec3 { x, y, z }
    }

    /// Randomized vector with components in the range `[0, 1)`.
    pub fn random(rng: &mut Entropy) -> (r: Self)
        ensures
            ({
                let (v, s) = random_clamped_s(old(rng).state, 0, SCALE as int);
                r == v && final(rng).state == s
            }),
            vec_bounded(r, SCALE as int),
    {
        let r = Self::random_clamped(rng, 0, SCALE);
        r
    }

    /// One rejection pass of the disk sampler.
    fn disk_pair(rng: &mut Entropy, fuel: u32) -> (r: (i64, i64))
        ensures
            ({
                let (a, b, s) = disk_pair_s(old(rng).state, fuel as nat);
                r.0 == a && r.1 == b && final(rng).state == s
            }),
        decreases fuel,
    {
        if fuel == 0 {
            (0, 0)
        } else {
            let d1 = rng.next_unit();
            let a = 2 * d1 - SCALE;
            let d2 = rng.next_unit();
            let b = 2 * d2 - SCALE;
            proof {
                lemma_fmul_bound(a as int, a as int, SCALE as int, SCALE as int);
                lemma_fmul_bound(b as int, b as int, SCALE as int, SCALE as int);
                lemma_fmul_square_nonneg(a as int);
                lemma_fmul_square_nonneg(b as int);
            }
            if fx_mul(a, a) + fx_mul(b, b) <= SCALE {
                (a, b)
            } else {
                Self::disk_pair(rng, fuel - 1)
            }
        }
    }

    /// Randomized vector with components within a unit disk.
    ///
    /// * `axis_normal` - Denotes the axis normal to the unit disk: that
    ///   component of the result is zero.
    pub fn random_in_unit_disk(rng: &mut Entropy, axis_normal: Axis) -> (r: Self)
        ensures
            ({
                let (v, s) = unit_disk_s(old(rng).state, axis_normal);
                r == v && final(rng).state == s
            }),
            vec_bounded(r, SCALE as int),
            mag2_s(r) <= SCALE as int,
    {
        proof {
            lemma_disk_pair_props(rng.state, REJECTION_ATTEMPTS as nat);
        }
        let (a, b) = Self::disk_pair(rng, REJECTION_ATTEMPTS);
        proof {
            assert(fmul(0, 0) == 0);
            lemma_fmul_square_nonneg(a as int);
            lemma_fmul_square_nonneg(b as int);
        }
        match axis_normal {
            Axis::X => Vec3 { x: 0, y: a, z: b },
            Axis::Y => Vec3 { x: a, y: 0, z: b },
            Axis::Z => Vec3 { x: a, y: b, z: 0 },
        }
    }

    /// One rejection pass of the sphere sampler.
    fn sphere_point(rng: &mut Entropy, fuel: u32) -> (r: Self)
        ensures
            ({
                let (p, s) = sphere_point_s(old(rng).state, fuel as nat);
                r == p && final(rng).state == s
            }),
        decreases fuel,
    {
        if fuel == 0 {
            Vec3 { x: 0, y: 0, z: 0 }
        } else {
            let d1 = rng.next_unit();
            let d2 = rng.next_unit();
            let d3 = rng.next_unit();
            let p = Vec3 { x: 2 * d1 - SCALE, y: 2 * d2 - SCALE, z: 2 * d3 - SCALE };
            let m2 = p.magnitude_squared();
            if m2 <= SCALE {
                p
            } else {
                Self::sphere_point(rng, fuel - 1)
            }
        }
    }

    /// Randomized vector with components within the unit sphere.
    pub fn random_in_unit_sphere(rng: &mut Entropy) -> (r: Self)
        ensures
            ({
                let (p, s) = sphere_point_s(old(rng).state, REJECTION_ATTEMPTS as nat);
                r == p && final(rng).state == s
            }),
            vec_bounded(r, SCALE as int),
            mag2_s(r) <= SCALE as int,
    {
        proof {
            lemma_sphere_point_props(rng.state, REJECTION_ATTEMPTS as nat);
        }
        Self::sphere_point(rng, REJECTION_ATTEMPTS)
    }

    /// Randomized vector with components on the unit sphere, in polar form.
    pub fn random_unit_vector(rng: &mut Entropy) -> (r: Self)
        ensures
            ({
                let (v, s) = unit_vector_s(old(rng).state);
                r == v && final(rng).state == s
            }),
            vec_bounded(r, 3 * SCALE as int),
    {
        let d1 = rng.next_unit();
        proof {
            lemma_fmul_nonneg(d1 as int, TWO_PI_FX as int);
            lemma_fmul_bound(d1 as int, TWO_PI_FX as int, 65535, TWO_PI_FX as int);
        }
        let a = fx_mul(d1, TWO_PI_FX);
        let d2 = rng.next_unit();
        let z = 2 * d2 - SCALE;
        proof {
            lemma_fmul_bound(z as int, z as int, SCALE as int, SCALE as int);
            lemma_fmul_square_nonneg(z as int);
        }
        let zz = fx_mul(z, z);
        let k = SCALE - zz;
        let rad = fx_sqrt(k);
        proof {
            lemma_isqrt_bound(k as int * SCALE as int, rad as int, SCALE as int);
        }
        let cv = cos_fx(a);
        let sv = sin_fx(a);
        proof {
            lemma_fmul_bound(rad as int, cv as int, SCALE as int, 3 * SCALE as int);
            lemma_fmul_bound(rad as int, sv as int, SCALE as int, 3 * SCALE as int);
        }
        Vec3 { x: fx_mul(rad, cv), y: fx_mul(rad, sv), z }
    }

    /// Randomized vector within the same hemisphere as some normal vector.
    pub fn random_in_hemisphere(rng: &mut Entropy, normal: &Vec3) -> (r: Self)
        requires
            vec_bounded(*normal, VEC_MAX as int),
        ensures
            ({
                let (v, s) = hemisphere_s(old(rng).state, *normal);
                r == v && final(rng).state == s
            }),
            vec_bounded(r, SCALE as int),
    {
        let p = Self::random_in_unit_sphere(rng);
        if p.dot(normal) > 0 {
            p
        } else {
            p.neg()
        }
    }
}

} // verus!
