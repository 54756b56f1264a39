//! Materials which interact with rays by scattering or absorbing them.
//!
//! The material set is closed — diffuse, fuzzy metal, dielectric — so
//! dispatch is a match over a tagged variant type rather than a trait
//! object. Each scatter rule consumes draws from the entropy stream and is
//! specified exactly: the scattered ray, the attenuation, and the state the
//! stream is left in are all functions of the inputs.

use crate::collide::Collision;
use crate::entropy::{draw_of, next_state, Entropy};
use crate::fixed::{
    fdiv, fmul, fsqrt, fx_div, fx_mul, fx_sqrt, lemma_fmul_bound, lemma_fmul_square_nonneg,
    lemma_isqrt_bound, lemma_mag_mul, lemma_quot_bound, lemma_quot_mag, mag, SCALE,
};
use crate::ray::{Ray, POINT_MAX, RAY_MAX};
use crate::vector::{
    add_s, color_wf, dot_s, lemma_dot_bound, mag2_s, neg_s, normalized_s, reflect_s, refract_s,
    scale_s, sphere_point_s, unit_vector_s, vec_bounded, Vec3, REJECTION_ATTEMPTS,
};
use vstd::arithmetic::div_mod::{lemma_div_is_ordered, lemma_div_multiples_vanish};
use vstd::prelude::*;

verus! {

/// Largest componentwise magnitude the scatter rules accept for a surface
/// normal: four whole units. An exactly normalized vector has magnitude one;
/// the integrator treats hits whose normal strays further as absorbed.
pub const NORMAL_MAX: i64 = 0x40000;

/// What the scatter rules need of a hit: the incoming ray's direction is
/// bounded and not degenerate, and the hit's point and normal are bounded.
pub open spec fn scatter_input_wf(ray: Ray, collision: Collision) -> bool {
    &&& vec_bounded(ray.direction, RAY_MAX as int)
    &&& mag2_s(ray.direction) >= 1
    &&& vec_bounded(collision.normal, NORMAL_MAX as int)
    &&& vec_bounded(collision.point, POINT_MAX as int)
}

/// Simple lambertian material.
#[derive(Clone, Copy, Debug, PartialEq, Eq, Structural)]
pub struct Lambert {
    pub albedo: Vec3,
}

/// Simple metallic material with surface scattering fuzz factor.
#[derive(Clone, Copy, Debug, PartialEq, Eq, Structural)]
pub struct Metal {
    pub albedo: Vec3,
    pub fuzz: i64,
}

/// Simple dielectric material with refraction index.
#[derive(Clone, Copy, Debug, PartialEq, Eq, Structural)]
pub struct Dielectric {
    pub refraction_index: i64,
}

/// A material which interacts with rays by scattering or absorbing them.
#[derive(Clone, Copy, Debug, PartialEq, Eq, Structural)]
pub enum Material {
    Lambert(Lambert),
    Metal(Metal),
    Dielectric(Dielectric),
}

/// A diffuse material's albedo is a color.
pub open spec fn lambert_wf(m: Lambert) -> bool {
    color_wf(m.albedo)
}

/// A metal's albedo is a color and its fuzz lies in `[0, 1]`.
pub open spec fn metal_wf(m: Metal) -> bool {
    color_wf(m.albedo) && 0 <= m.fuzz <= SCALE as int
}

/// A dielectric's refraction index lies within the fixed-point modeling
/// range, a thirty-second to sixteen.
pub open spec fn dielectric_wf(m: Dielectric) -> bool {
    0x800 <= m.refraction_index <= 0x100000
}

/// The material's parameters are well formed.
pub open spec fn material_wf(m: Material) -> bool {
    match m {
        Material::Lambert(l) => lambert_wf(l),
        Material::Metal(mm) => metal_wf(mm),
        Material::Dielectric(d) => dielectric_wf(d),
    }
}

/// What a lambertian scatter returns: a ray from the hit point along the
/// normal plus a random unit vector, attenuated by the albedo. It always
/// scatters.
pub open spec fn lambert_scatter_s(m: Lambert, collision: Collision, s0: u64) -> (Option<
    (Ray, Vec3),
>, u64) {
    let (uv, s1) = unit_vector_s(s0);
    (
        Some((Ray { point: collision.point, direction: add_s(collision.normal, uv) }, m.albedo)),
        s1,
    )
}

/// What a metallic scatter returns: the incoming direction mirrored about
/// the normal, fuzzed by a random point of the unit ball, attenuated by the
/// albedo — unless the fuzzed direction points into the surface, which
/// absorbs the ray.
pub open spec fn metal_scatter_s(m: Metal, ray: Ray, collision: Collision, s0: u64) -> (Option<
    (Ray, Vec3),
>, u64) {
    let reflected = reflect_s(normalized_s(ray.direction), collision.normal);
    let (sp, s1) = sphere_point_s(s0, REJECTION_ATTEMPTS as nat);
    let dir = add_s(reflected, scale_s(sp, m.fuzz as int));
    if dot_s(dir, collision.normal) > 0 {
        (Some((Ray { point: collision.point, direction: dir }, m.albedo)), s1)
    } else {
        (None, s1)
    }
}

/// The fifth power of a scalar: `((x²)²) · x`.
pub open spec fn pow5_s(x: int) -> int {
    let x2 = fmul(x, x);
    let x4 = fmul(x2, x2);
    fmul(x4, x)
}

/// The Schlick reflectance approximation:
/// `r0 + (1 - r0)(1 - cosine)^5` with `r0 = ((1 - n)/(1 + n))²`.
pub open spec fn schlick_s(cosine: int, refraction_index: int) -> int {
    let r0a = fdiv(SCALE as int - refraction_index, SCALE as int + refraction_index);
    let r0 = fmul(r0a, r0a);
    r0 + fmul(SCALE as int - r0, pow5_s(SCALE as int - cosine))
}

/// The refraction ratio a dielectric uses: the reciprocal of the index when
/// the hit enters the medium, the index itself when it leaves.
pub open spec fn dielectric_ratio_s(m: Dielectric, collision: Collision) -> int {
    if collision.front_face {
        fdiv(SCALE as int, m.refraction_index as int)
    } else {
        m.refraction_index as int
    }
}

/// The cosine of the angle between the incoming unit direction and the
/// normal, held at no more than one.
pub open spec fn dielectric_cos_s(ray: Ray, collision: Collision) -> int {
    let cos_raw = dot_s(neg_s(normalized_s(ray.direction)), collision.normal);
    if cos_raw <= SCALE as int {
        cos_raw
    } else {
        SCALE as int
    }
}

/// The sine recovered from the cosine, with the radicand held at no less
/// than zero against rounding.
pub open spec fn dielectric_sin_s(ray: Ray, collision: Collision) -> int {
    let cos_theta = dielectric_cos_s(ray, collision);
    let k = SCALE as int - fmul(cos_theta, cos_theta);
    fsqrt(
        if k >= 0 {
            k
        } else {
            0
        },
    )
}

/// Total internal reflection: Snell's law has no solution because
/// `ratio * sin_theta` exceeds one.
pub open spec fn dielectric_tir_s(m: Dielectric, ray: Ray, collision: Collision) -> bool {
    fmul(dielectric_ratio_s(m, collision), dielectric_sin_s(ray, collision)) > SCALE as int
}

/// What a dielectric scatter returns: always a ray (attenuation is opaque
/// white), reflected when Snell's law has no solution (total internal
/// reflection) or when the Schlick reflectance beats a uniform draw, and
/// refracted otherwise. Total internal reflection consumes no draw.
pub open spec fn dielectric_scatter_s(
    m: Dielectric,
    ray: Ray,
    collision: Collision,
    s0: u64,
) -> (Option<(Ray, Vec3)>, u64) {
    let attenuation = Vec3 { x: SCALE, y: SCALE, z: SCALE };
    let ratio = dielectric_ratio_s(m, collision);
    let unit = normalized_s(ray.direction);
    let cos_theta = dielectric_cos_s(ray, collision);
    if dielectric_tir_s(m, ray, collision) {
        (
            Some(
                (
                    Ray { point: collision.point, direction: reflect_s(unit, collision.normal) },
                    attenuation,
                ),
            ),
            s0,
        )
    } else {
        let s1 = next_state(s0);
        if draw_of(s1) < schlick_s(cos_theta, ratio) {
            (
                Some(
                    (
                        Ray {
                            point: collision.point,
                            direction: reflect_s(unit, collision.normal),
                        },
                        attenuation,
                    ),
                ),
                s1,
            )
        } else {
            (
                Some(
                    (
                        Ray {
                            point: collision.point,
                            direction: refract_s(unit, collision.normal, ratio),
                        },
                        attenuation,
                    ),
                ),
                s1,
            )
        }
    }
}

/// What the material's scatter returns, by variant.
pub open spec fn scatter_s(m: Material, ray: Ray, collision: Collision, s0: u64) -> (Option<
    (Ray, Vec3),
>, u64) {
    match m {
        Material::Lambert(l) => lambert_scatter_s(l, collision, s0),
        Material::Metal(mm) => metal_scatter_s(mm, ray, collision, s0),
        Material::Dielectric(d) => dielectric_scatter_s(d, ray, collision, s0),
    }
}

impl Lambert {
    /// A diffuse material with the given albedo color.
    pub fn new(albedo: Vec3) -> (r: Self)
        requires
            color_wf(albedo),
        ensures
            r == (Lambert { albedo }),
            lambert_wf(r),
    {
        Lambert { albedo }
    }

    /// Scatter an incoming ray diffusely.
    pub fn scatter(&self, _ray_in: &Ray, collision: &Collision, rng: &mut Entropy) -> (r: Option<
        (Ray, Vec3),
    >)
        requires
            vec_bounded(collision.normal, NORMAL_MAX as int),
        ensures
            ({
                let (res, s) = lambert_scatter_s(*self, *collision, old(rng).state);
                r == res && final(rng).state == s
            }),
    {
        let uv = Vec3::random_unit_vector(rng);
        let scatter_direction = collision.normal.add(&uv);
        let scattered = Ray::new(collision.point, scatter_direction);
        Some((scattered, self.albedo))
    }
}

impl Metal {
    /// A metallic material with the given albedo color; the fuzz factor is
    /// clamped to at most one.
    pub fn new(albedo: Vec3, fuzz: i64) -> (r: Self)
        requires
            color_wf(albedo),
            0 <= fuzz,
        ensures
            r == (Metal {
                albedo,
                fuzz: if fuzz < SCALE {
                    fuzz
                } else {
                    SCALE
                },
            }),
            metal_wf(r),
    {
        Metal {
            albedo,
            fuzz: if fuzz < SCALE {
                fuzz
            } else {
                SCALE
            },
        }
    }

    /// Scatter an incoming ray by fuzzy mirror reflection.
    pub fn scatter(&self, r_in: &Ray, collision: &Collision, rng: &mut Entropy) -> (r: Option<
        (Ray, Vec3),
    >)
        requires
            metal_wf(*self),
            scatter_input_wf(*r_in, *collision),
        ensures
            ({
                let (res, s) = metal_scatter_s(*self, *r_in, *collision, old(rng).state);
                r == res && final(rng).state == s
            }),
    {
        let reflected = r_in.direction.normalized().reflect(collision.normal);
        let sp = Vec3::random_in_unit_sphere(rng);
        proof {
            lemma_fmul_bound(sp.x as int, self.fuzz as int, SCALE as int, SCALE as int);
            lemma_fmul_bound(sp.y as int, self.fuzz as int, SCALE as int, SCALE as int);
            lemma_fmul_bound(sp.z as int, self.fuzz as int, SCALE as int, SCALE as int);
        }
        let fuzzed = sp.scale(self.fuzz);
        let dir = reflected.add(&fuzzed);
        let scattered = Ray::new(collision.point, dir);
        if dir.dot(&collision.normal) > 0 {
            Some((scattered, self.albedo))
        } else {
            None
        }
    }
}

/// Helper to calculate probability of ray reflection versus refraction.
fn schlick_approx(cosine: i64, refraction_index: i64) -> (r: i64)
    requires
        mag(cosine as int) <= 0x180000,
        cosine <= SCALE,
        1 <= refraction_index <= 0x200000,
    ensures
        r == schlick_s(cosine as int, refraction_index as int),
{
    let s = SCALE;
    proof {
        let ri = refraction_index as int;
        let si = SCALE as int;
        lemma_mag_mul(si - ri, si);
        lemma_quot_mag((si - ri) * si, si + ri);
        lemma_div_is_ordered(mag((si - ri) * si), (si + ri) * si, si + ri);
        lemma_div_multiples_vanish(si, si + ri);
        assert(mag((si - ri) * si) <= (si + ri) * si) by (nonlinear_arith)
            requires
                1 <= ri,
                si == 65536,
                mag(si - ri) == if si - ri >= 0 {
                    si - ri
                } else {
                    ri - si
                },
                mag((si - ri) * si) == mag(si - ri) * mag(si),
        ;
    }
    let r0a = fx_div(s - refraction_index, s + refraction_index);
    proof {
        lemma_fmul_bound(r0a as int, r0a as int, SCALE as int, SCALE as int);
        lemma_fmul_square_nonneg(r0a as int);
    }
    let r0 = fx_mul(r0a, r0a);
    let p = s - cosine;
    proof {
        lemma_fmul_bound(p as int, p as int, 0x190000, 0x190000);
        lemma_fmul_square_nonneg(p as int);
    }
    let p2 = fx_mul(p, p);
    proof {
        lemma_fmul_bound(p2 as int, p2 as int, 0x2710000, 0x2710000);
        lemma_fmul_square_nonneg(p2 as int);
    }
    let p4 = fx_mul(p2, p2);
    proof {
        lemma_fmul_bound(p4 as int, p as int, 0x5_F5E1_0000, 0x190000);
    }
    let p5 = fx_mul(p4, p);
    proof {
        lemma_fmul_bound(SCALE as int - r0 as int, p5 as int, SCALE as int, 0x17_0000_0000_0000);
    }
    r0 + fx_mul(s - r0, p5)
}

impl Dielectric {
    /// A dielectric material with the given refraction index.
    pub fn new(refraction_index: i64) -> (r: Self)
        requires
            0x800 <= refraction_index <= 0x100000,
        ensures
            r == (Dielectric { refraction_index }),
            dielectric_wf(r),
    {
        Dielectric { refraction_index }
    }

    /// Scatter an incoming ray by randomized reflection or refraction.
    pub fn scatter(&self, r_in: &Ray, collision: &Collision, rng: &mut Entropy) -> (r: Option<
        (Ray, Vec3),
    >)
        requires
            dielectric_wf(*self),
            scatter_input_wf(*r_in, *collision),
        ensures
            ({
                let (res, s) = dielectric_scatter_s(*self, *r_in, *collision, old(rng).state);
                r == res && final(rng).state == s
            }),
            dielectric_tir_s(*self, *r_in, *collision) ==> final(rng).state == old(rng).state
                && r == Some(
                (
                    Ray {
                        point: collision.point,
                        direction: reflect_s(normalized_s(r_in.direction), collision.normal),
                    },
                    Vec3 { x: SCALE, y: SCALE, z: SCALE },
                ),
            ),
    {
        proof {
            if dielectric_tir_s(*self, *r_in, *collision) {
                lemma_dielectric_total_internal_reflection(
                    *self,
                    *r_in,
                    *collision,
                    old(rng).state,
                );
            }
        }
        let attenuation = Vec3::new(SCALE, SCALE, SCALE);
        proof {
            lemma_quot_bound(
                SCALE as int * SCALE as int,
                self.refraction_index as int,
                SCALE as int * SCALE as int,
            );
            lemma_quot_mag(SCALE as int * SCALE as int, self.refraction_index as int);
            vstd::arithmetic::div_mod::lemma_div_is_ordered_by_denominator(
                SCALE as int * SCALE as int,
                0x800,
                self.refraction_index as int,
            );
            vstd::arithmetic::div_mod::lemma_div_is_ordered_by_denominator(
                SCALE as int * SCALE as int,
                self.refraction_index as int,
                0x100000,
            );
        }
        let refraction_quotient: i64 = if collision.front_face {
            fx_div(SCALE, self.refraction_index)
        } else {
            self.refraction_index
        };
        let unit_direction = r_in.direction.normalized();
        proof {
            lemma_dot_bound(
                neg_s(unit_direction),
                collision.normal,
                2 * SCALE as int,
                NORMAL_MAX as int,
            );
        }
        let cos_raw = unit_direction.neg().dot(&collision.normal);
        let cos_theta = if cos_raw <= SCALE {
            cos_raw
        } else {
            SCALE
        };
        proof {
            lemma_fmul_bound(cos_theta as int, cos_theta as int, 0x180000, 0x180000);
            lemma_fmul_square_nonneg(cos_theta as int);
        }
        let cc = fx_mul(cos_theta, cos_theta);
        let k: i64 = if SCALE - cc >= 0 {
            SCALE - cc
        } else {
            0
        };
        let sin_theta = fx_sqrt(k);
        proof {
            lemma_isqrt_bound(k as int * SCALE as int, sin_theta as int, SCALE as int);
            lemma_fmul_bound(
                refraction_quotient as int,
                sin_theta as int,
                0x200000,
                SCALE as int,
            );
        }
        if fx_mul(refraction_quotient, sin_theta) > SCALE {
            let reflected = unit_direction.reflect(collision.normal);
            Some((Ray::new(collision.point, reflected), attenuation))
        } else {
            let draw = rng.next_unit();
            let reflected_prob = schlick_approx(cos_theta, refraction_quotient);
            if draw < reflected_prob {
                let reflected = unit_direction.reflect(collision.normal);
                Some((Ray::new(collision.point, reflected), attenuation))
            } else {
                let refracted = unit_direction.refract(collision.normal, refraction_quotient);
                Some((Ray::new(collision.point, refracted), attenuation))
            }
        }
    }
}

/// A scattered ray's attenuation is a color: an albedo kept in `[0, 1]` by
/// the material's well-formedness, or the dielectric's opaque white.
pub proof fn lemma_scatter_attenuation(m: Material, ray: Ray, collision: Collision, s0: u64)
    requires
        material_wf(m),
    ensures
        ({
            let (sc, s) = scatter_s(m, ray, collision, s0);
            sc is Some ==> color_wf(sc.unwrap().1)
        }),
{
    match m {
        Material::Lambert(l) => {
        },
        Material::Metal(mm) => {
        },
        Material::Dielectric(d) => {
        },
    }
}

/// At total internal reflection a dielectric always reflects: the scattered
/// ray is the mirror reflection of the incoming unit direction, the
/// attenuation is opaque white, and no random draw is consumed — so no draw
/// can ever select refraction there.
pub proof fn lemma_dielectric_total_internal_reflection(
    m: Dielectric,
    ray: Ray,
    collision: Collision,
    s0: u64,
)
    requires
        dielectric_tir_s(m, ray, collision),
    ensures
        dielectric_scatter_s(m, ray, collision, s0) == (
            Some(
                (
                    Ray {
                        point: collision.point,
                        direction: reflect_s(normalized_s(ray.direction), collision.normal),
                    },
                    Vec3 { x: SCALE, y: SCALE, z: SCALE },
                ),
            ),
            s0,
        ),
{
}

impl Material {
    /// Scatter an incoming ray by the material's rule.
    pub fn scatter(&self, ray_in: &Ray, collision: &Collision, rng: &mut Entropy) -> (r: Option<
        (Ray, Vec3),
    >)
        requires
            material_wf(*self),
            scatter_input_wf(*ray_in, *collision),
        ensures
            ({
                let (res, s) = scatter_s(*self, *ray_in, *collision, old(rng).state);
                r == res && final(rng).state == s
            }),
            r is Some ==> color_wf(r.unwrap().1),
            r is Some ==> r.unwrap().0.point == collision.point,
    {
        match self {
            Material::Lambert(l) => l.scatter(ray_in, collision, rng),
            Material::Metal(m) => m.scatter(ray_in, collision, rng),
            Material::Dielectric(d) => d.scatter(ray_in, collision, rng),
        }
    }
}

} // verus!
