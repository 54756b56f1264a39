//! Fixed-point scalar arithmetic.
//!
//! A scalar is an `i64` holding the real value scaled by `SCALE` (2^16): a
//! raw value `v` stands for the real number `v / 65536`. Products and
//! quotients are taken exactly over the integers and truncated toward zero,
//! so every operation here has an exact integer specification.

use vstd::arithmetic::div_mod::{
    lemma_div_is_ordered, lemma_div_nonincreasing, lemma_div_of0, lemma_div_pos_is_pos,
};
use vstd::arithmetic::mul::lemma_mul_upper_bound;
use vstd::prelude::*;

verus! {

/// Raw units per whole unit: scalars carry 16 fractional bits.
pub const SCALE: i64 = 65536;

/// Magnitude of a mathematical integer.
pub open spec fn mag(a: int) -> int {
    if a >= 0 {
        a
    } else {
        -a
    }
}

/// Quotient of `a` by `b`, truncated toward zero — the rounding machine
/// division performs (spec-level `/` is Euclidean and rounds differently
/// when the dividend is negative).
pub open spec fn quot(a: int, b: int) -> int {
    if (a >= 0) == (b >= 0) {
        mag(a) / mag(b)
    } else {
        -(mag(a) / mag(b))
    }
}

/// Fixed-point product: `(a * b) / SCALE`, truncated toward zero.
pub open spec fn fmul(a: int, b: int) -> int {
    quot(a * b, SCALE as int)
}

/// Fixed-point quotient: `(a * SCALE) / b`, truncated toward zero.
pub open spec fn fdiv(a: int, b: int) -> int {
    quot(a * SCALE as int, b)
}

/// The magnitude of a product is the product of the magnitudes.
pub proof fn lemma_mag_mul(a: int, b: int)
    ensures
        mag(a * b) == mag(a) * mag(b),
{
    if a >= 0 {
        if b >= 0 {
            assert(a * b >= 0) by (nonlinear_arith)
                requires
                    a >= 0,
                    b >= 0,
            ;
        } else {
            assert(a * b <= 0 && a * b == -(a * (-b)) && a * (-b) >= 0) by (nonlinear_arith)
                requires
                    a >= 0,
                    b < 0,
            ;
        }
    } else {
        if b >= 0 {
            assert(a * b <= 0 && a * b == -((-a) * b) && (-a) * b >= 0) by (nonlinear_arith)
                requires
                    a < 0,
                    b >= 0,
            ;
        } else {
            assert(a * b >= 0 && a * b == (-a) * (-b)) by (nonlinear_arith)
                requires
                    a < 0,
                    b < 0,
            ;
        }
    }
}

/// A fixed-point square of a scalar is nonnegative.
pub proof fn lemma_fmul_square_nonneg(c: int)
    ensures
        fmul(c, c) >= 0,
        fmul(c, c) <= mag(c) * mag(c) / (SCALE as int),
{
    lemma_mag_mul(c, c);
    lemma_quot_mag(c * c, SCALE as int);
    assert(c * c >= 0) by (nonlinear_arith);
    lemma_div_pos_is_pos(mag(c * c), SCALE as int);
}

/// The sign of a product follows the signs of its factors.
pub proof fn lemma_mul_sign(a: int, b: int)
    ensures
        a >= 0 && b >= 0 ==> a * b >= 0,
        a <= 0 && b <= 0 ==> a * b >= 0,
        a >= 0 && b <= 0 ==> a * b <= 0,
        a <= 0 && b >= 0 ==> a * b <= 0,
{
    assert((a >= 0 && b >= 0 ==> a * b >= 0) && (a <= 0 && b <= 0 ==> a * b >= 0) && (a >= 0 && b
        <= 0 ==> a * b <= 0) && (a <= 0 && b >= 0 ==> a * b <= 0)) by (nonlinear_arith);
}

/// A truncated quotient is no larger in magnitude than its dividend.
pub proof fn lemma_quot_mag(a: int, b: int)
    requires
        b != 0,
    ensures
        mag(quot(a, b)) == mag(a) / mag(b),
        mag(quot(a, b)) <= mag(a),
        a >= 0 && b > 0 ==> quot(a, b) == a / b,
{
    lemma_div_pos_is_pos(mag(a), mag(b));
    lemma_div_nonincreasing(mag(a), mag(b));
}

/// Bound on a truncated quotient from bounds on its operands.
pub proof fn lemma_quot_bound(a: int, b: int, m: int)
    requires
        b != 0,
        mag(a) <= m,
    ensures
        mag(quot(a, b)) <= m / mag(b),
        mag(quot(a, b)) <= m,
        -m <= quot(a, b) <= m,
{
    lemma_quot_mag(a, b);
    lemma_div_is_ordered(mag(a), m, mag(b));
    lemma_div_nonincreasing(m, mag(b));
}

/// Bound on a fixed-point product from bounds on its operands.
pub proof fn lemma_fmul_bound(a: int, b: int, ba: int, bb: int)
    requires
        mag(a) <= ba,
        mag(b) <= bb,
    ensures
        mag(fmul(a, b)) <= (ba * bb) / (SCALE as int),
        -(ba * bb) <= fmul(a, b) <= ba * bb,
{
    lemma_mag_mul(a, b);
    lemma_mul_upper_bound(mag(a), ba, mag(b), bb);
    lemma_quot_bound(a * b, SCALE as int, ba * bb);
    lemma_div_is_ordered(mag(a * b), ba * bb, SCALE as int);
    lemma_quot_mag(a * b, SCALE as int);
}

/// Negating the dividend negates a truncated quotient.
pub proof fn lemma_quot_neg(a: int, b: int)
    requires
        b != 0,
    ensures
        quot(-a, b) == -quot(a, b),
{
    if a == 0 {
        lemma_div_of0(mag(b));
    }
}

/// Negating one factor negates a fixed-point product.
pub proof fn lemma_fmul_neg(a: int, b: int)
    ensures
        fmul(a, -b) == -fmul(a, b),
{
    assert(a * (-b) == -(a * b)) by (nonlinear_arith);
    lemma_quot_neg(a * b, SCALE as int);
}

/// A fixed-point product of nonnegative scalars is nonnegative.
pub proof fn lemma_fmul_nonneg(a: int, b: int)
    requires
        0 <= a,
        0 <= b,
    ensures
        0 <= fmul(a, b),
{
    assert(a * b >= 0) by (nonlinear_arith)
        requires
            a >= 0,
            b >= 0,
    ;
    lemma_mag_mul(a, b);
    lemma_div_pos_is_pos(a * b, SCALE as int);
}

/// A fixed-point product of values in `[0, SCALE]` stays in `[0, SCALE]`:
/// attenuation factors never amplify a color channel.
pub proof fn lemma_fmul_unit_interval(a: int, b: int)
    requires
        0 <= a <= SCALE as int,
        0 <= b <= SCALE as int,
    ensures
        0 <= fmul(a, b) <= SCALE as int,
        fmul(a, b) <= a,
        fmul(a, b) <= b,
{
    lemma_mag_mul(a, b);
    lemma_div_pos_is_pos(a * b, SCALE as int);
    assert(a * b <= SCALE as int * b && a * b <= a * SCALE as int) by (nonlinear_arith)
        requires
            0 <= a <= SCALE as int,
            0 <= b <= SCALE as int,
    ;
    lemma_div_is_ordered(a * b, b * SCALE as int, SCALE as int);
    lemma_div_is_ordered(a * b, a * SCALE as int, SCALE as int);
    assert(b * SCALE as int / SCALE as int == b && a * SCALE as int / SCALE as int == a) by (
    nonlinear_arith)
        requires
            a >= 0,
            b >= 0,
    ;
}

/// Magnitude of a scalar, widened to `u64` so that `i64::MIN` needs no
/// special case.
pub fn mag64(a: i64) -> (r: u64)
    ensures
        r == mag(a as int),
{
    if a >= 0 {
        a as u64
    } else {
        (-(a as i128)) as u64
    }
}

/// `(a * b) / c` with the product taken exactly and the quotient truncated
/// toward zero. The workhorse behind every fixed-point operation.
pub fn muldiv(a: i64, b: i64, c: i64) -> (r: i64)
    requires
        c != 0,
        i64::MIN <= quot(a as int * b as int, c as int) <= i64::MAX,
    ensures
        r == quot(a as int * b as int, c as int),
{
    let neg: bool = ((a < 0) != (b < 0)) != (c < 0);
    let ma: u128 = mag64(a) as u128;
    let mb: u128 = mag64(b) as u128;
    let mc: u128 = mag64(c) as u128;
    proof {
        lemma_mul_upper_bound(ma as int, 0x8000_0000_0000_0000, mb as int, 0x8000_0000_0000_0000);
    }
    let q: u128 = (ma * mb) / mc;
    proof {
        let p = a as int * b as int;
        lemma_mag_mul(a as int, b as int);
        lemma_mul_sign(a as int, b as int);
        lemma_quot_mag(p, c as int);
        assert(ma * mb == mag(p));
        assert(q == mag(p) / mag(c as int));
        assert(mag(quot(p, c as int)) == q);
        if p == 0 {
            lemma_div_of0(mag(c as int));
            assert(q == 0);
            assert(quot(p, c as int) == 0);
        } else if neg {
            assert(p < 0 <==> ((a < 0) != (b < 0)));
            assert((p >= 0) != (c >= 0));
            assert(quot(p, c as int) == -(q as int));
        } else {
            assert(p < 0 <==> ((a < 0) != (b < 0)));
            assert((p >= 0) == (c >= 0));
            assert(quot(p, c as int) == q as int);
        }
        assert(q <= 0x8000_0000_0000_0000u128);
    }
    if neg {
        (-(q as i128)) as i64
    } else {
        q as i64
    }
}

/// Magnitude of a wide scalar. The top quarter of the `i128` range is
/// excluded so that negation cannot wrap.
pub fn mag128(a: i128) -> (r: u128)
    requires
        mag(a as int) <= 0x4000_0000_0000_0000_0000_0000_0000_0000,
    ensures
        r == mag(a as int),
{
    if a >= 0 {
        a as u128
    } else {
        (-a) as u128
    }
}

/// `(a * b) / c` over wide scalars, with the product taken exactly and the
/// quotient truncated toward zero. Operands are capped at 2^63 in magnitude,
/// so the product and the quotient always fit.
pub fn muldiv128(a: i128, b: i128, c: i128) -> (r: i128)
    requires
        c != 0,
        mag(a as int) <= 0x8000_0000_0000_0000,
        mag(b as int) <= 0x8000_0000_0000_0000,
        mag(c as int) <= 0x8000_0000_0000_0000,
    ensures
        r == quot(a as int * b as int, c as int),
        mag(r as int) <= 0x4000_0000_0000_0000_0000_0000_0000_0000,
{
    let neg: bool = ((a < 0) != (b < 0)) != (c < 0);
    let ma: u128 = mag128(a);
    let mb: u128 = mag128(b);
    let mc: u128 = mag128(c);
    proof {
        lemma_mul_upper_bound(ma as int, 0x8000_0000_0000_0000, mb as int, 0x8000_0000_0000_0000);
    }
    let q: u128 = (ma * mb) / mc;
    proof {
        let p = a as int * b as int;
        lemma_mag_mul(a as int, b as int);
        lemma_mul_sign(a as int, b as int);
        lemma_quot_mag(p, c as int);
        lemma_div_nonincreasing(mag(p), mag(c as int));
        assert(ma * mb == mag(p));
        assert(q == mag(p) / mag(c as int));
        assert(mag(quot(p, c as int)) == q);
        if p == 0 {
            lemma_div_of0(mag(c as int));
            assert(q == 0);
            assert(quot(p, c as int) == 0);
        } else if neg {
            assert(p < 0 <==> ((a < 0) != (b < 0)));
            assert((p >= 0) != (c >= 0));
            assert(quot(p, c as int) == -(q as int));
        } else {
            assert(p < 0 <==> ((a < 0) != (b < 0)));
            assert((p >= 0) == (c >= 0));
            assert(quot(p, c as int) == q as int);
        }
        assert(q <= 0x4000_0000_0000_0000_0000_0000_0000_0000u128);
    }
    if neg {
        -(q as i128)
    } else {
        q as i128
    }
}

/// Fixed-point multiplication.
pub fn fx_mul(a: i64, b: i64) -> (r: i64)
    requires
        i64::MIN <= fmul(a as int, b as int) <= i64::MAX,
    ensures
        r == fmul(a as int, b as int),
{
    muldiv(a, b, SCALE)
}

/// Fixed-point division.
pub fn fx_div(a: i64, b: i64) -> (r: i64)
    requires
        b != 0,
        i64::MIN <= fdiv(a as int, b as int) <= i64::MAX,
    ensures
        r == fdiv(a as int, b as int),
{
    muldiv(a, SCALE, b)
}

/// `r` is the integer square root of `n`.
pub open spec fn is_isqrt(n: int, r: int) -> bool {
    r >= 0 && r * r <= n < (r + 1) * (r + 1)
}

/// The integer square root: the unique `r >= 0` with `r² <= n < (r+1)²`.
pub open spec fn isqrt_spec(n: int) -> int {
    choose|r: int| is_isqrt(n, r)
}

/// Fixed-point square root of a nonnegative scalar: the integer square root
/// of `a * SCALE`, so that the result is again a scalar with 16 fractional
/// bits.
pub open spec fn fsqrt(a: int) -> int {
    isqrt_spec(a * SCALE as int)
}

/// At most one integer is the square root of `n`.
pub proof fn lemma_isqrt_unique(n: int, r1: int, r2: int)
    requires
        is_isqrt(n, r1),
        is_isqrt(n, r2),
    ensures
        r1 == r2,
{
    if r1 < r2 {
        assert((r1 + 1) * (r1 + 1) <= r2 * r2) by (nonlinear_arith)
            requires
                0 <= r1 < r2,
        ;
    }
    if r2 < r1 {
        assert((r2 + 1) * (r2 + 1) <= r1 * r1) by (nonlinear_arith)
            requires
                0 <= r2 < r1,
        ;
    }
}

/// An integer square root is bounded by any `m` whose square bounds `n`.
pub proof fn lemma_isqrt_bound(n: int, r: int, m: int)
    requires
        is_isqrt(n, r),
        0 <= m,
        n <= m * m,
    ensures
        r <= m,
{
    if r > m {
        assert(m * m < r * r) by (nonlinear_arith)
            requires
                0 <= m < r,
        ;
    }
}

/// Integer square root by binary search over the 64-bit range.
pub fn isqrt(n: u128) -> (r: u64)
    requires
        n <= 0x4000_0000_0000_0000_0000_0000_0000_0000u128,
    ensures
        is_isqrt(n as int, r as int),
        r == isqrt_spec(n as int),
{
    let mut lo: u64 = 0;
    let mut hi: u64 = 0x8000_0000_0000_0000;
    proof {
        assert((0x8000_0000_0000_0000int + 1) * (0x8000_0000_0000_0000int + 1) > n as int)
            by (nonlinear_arith)
            requires
                n <= 0x4000_0000_0000_0000_0000_0000_0000_0000u128,
        ;
    }
    while lo < hi
        invariant
            lo <= hi,
            hi <= 0x8000_0000_0000_0000u64,
            (lo as int) * (lo as int) <= n as int,
            (n as int) < ((hi as int) + 1) * ((hi as int) + 1),
        decreases hi - lo,
    {
        let mid: u64 = lo + (hi - lo + 1) / 2;
        proof {
            lemma_mul_upper_bound(
                mid as int,
                0x8000_0000_0000_0000,
                mid as int,
                0x8000_0000_0000_0000,
            );
        }
        let sq: u128 = (mid as u128) * (mid as u128);
        if sq <= n {
            lo = mid;
        } else {
            hi = mid - 1;
        }
    }
    proof {
        assert(is_isqrt(n as int, lo as int));
        assert(exists|r: int| is_isqrt(n as int, r));
        lemma_isqrt_unique(n as int, lo as int, isqrt_spec(n as int));
    }
    lo
}

/// Fixed-point square root.
pub fn fx_sqrt(a: i64) -> (r: i64)
    requires
        0 <= a,
    ensures
        r == fsqrt(a as int),
        is_isqrt(a as int * SCALE as int, r as int),
        0 <= r,
{
    let n: u128 = (a as u128) * 65536;
    let r = isqrt(n);
    proof {
        lemma_isqrt_bound(n as int, r as int, 0x4000_0000_0000);
    }
    r as i64
}

/// Plain integer division, truncated toward zero.
pub fn idiv(a: i64, b: i64) -> (r: i64)
    requires
        b != 0,
        i64::MIN <= quot(a as int, b as int) <= i64::MAX,
    ensures
        r == quot(a as int, b as int),
{
    let r = muldiv(a, 1, b);
    proof {
        assert(a as int * 1 == a as int);
    }
    r
}

} // verus!
