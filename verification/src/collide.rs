//! Collision records and simple shape implementations.

use crate::fixed::{
    fdiv, fmul, fsqrt, fx_div, isqrt, lemma_fmul_bound, lemma_mag_mul, lemma_quot_bound, mag,
    muldiv128, quot, SCALE,
};
use crate::ray::{at_s, Ray, POINT_MAX, RAY_MAX, T_CAP};
use crate::vector::{dot_s, mag2_s, neg_s, sub_s, vec_bounded, Vec3};
use vstd::prelude::*;

verus! {

/// Largest componentwise magnitude of a scene coordinate: sphere centers and
/// radii stay within this bound.
pub const COORD_MAX: i64 = 0x400_0000;

/// Smallest sphere radius magnitude the geometry accepts: a quarter of one
/// two-hundredth of a unit. Below it the fixed-point outward normal loses
/// all precision.
pub const RADIUS_MIN: i64 = 256;

/// Collision record.
#[derive(Clone, Copy, Debug, PartialEq, Eq, Structural)]
pub struct Collision {
    /// Distance along ray at which collision occurred.
    pub t: i64,
    /// Point in space at which collision occurred.
    pub point: Vec3,
    /// Normal from collided object, oriented against the incoming ray.
    pub normal: Vec3,
    /// Index of the material of the collided object in the scene's arena.
    pub material: usize,
    /// If collision occurred on the front face of the collided object.
    pub front_face: bool,
}

/// The record built from an outward normal: the front face is the side the
/// outward normal points to, and the stored normal is flipped onto the side
/// the ray came from.
pub open spec fn collision_new_s(
    ray: Ray,
    t: int,
    point: Vec3,
    outward_normal: Vec3,
    material: int,
) -> Collision {
    let front_face = dot_s(ray.direction, outward_normal) < 0;
    Collision {
        t: t as i64,
        point,
        normal: if front_face {
            outward_normal
        } else {
            neg_s(outward_normal)
        },
        material: material as usize,
        front_face,
    }
}

/// Collidable sphere.
#[derive(Clone, Copy, Debug, PartialEq, Eq, Structural)]
pub struct Sphere {
    pub center: Vec3,
    pub radius: i64,
    pub material: usize,
}

/// A sphere's coordinates are in range and its radius is neither degenerate
/// nor out of range. A negative radius is allowed: it flips the outward
/// normal inward, which models a hollow interior surface.
pub open spec fn sphere_wf(s: Sphere) -> bool {
    &&& vec_bounded(s.center, COORD_MAX as int)
    &&& RADIUS_MIN as int <= mag(s.radius as int) <= COORD_MAX as int
}

/// The distance parameter accepted by the sphere intersection: the quadratic
/// `a t^2 + 2 half_b t + c = 0` is solved exactly over the scaled integers,
/// and the nearer root is preferred.
pub open spec fn sphere_roots_s(s: Sphere, ray: Ray) -> (int, int, int) {
    let oc = sub_s(ray.point, s.center);
    let a = mag2_s(ray.direction);
    let half_b = dot_s(oc, ray.direction);
    let c = mag2_s(oc) - fmul(s.radius as int, s.radius as int);
    let disc = fmul(half_b, half_b) - fmul(a, c);
    (a, half_b, disc)
}

/// What the sphere intersection returns: the nearest root strictly inside
/// `(t_min, t_max)` if the discriminant is positive and the ray direction is
/// not degenerate, with hit point and outward normal derived from it.
pub open spec fn sphere_collide_s(s: Sphere, ray: Ray, t_min: int, t_max: int) -> Option<
    Collision,
> {
    let (a, half_b, disc) = sphere_roots_s(s, ray);
    if disc > 0 && a > 0 {
        let root = fsqrt(disc);
        let t_near = quot((-half_b - root) * SCALE as int, a);
        let t_far = quot((-half_b + root) * SCALE as int, a);
        if t_min < t_near < t_max {
            Some(sphere_record_s(s, ray, t_near))
        } else if t_min < t_far < t_max {
            Some(sphere_record_s(s, ray, t_far))
        } else {
            None
        }
    } else {
        None
    }
}

/// The record for an accepted root `t`: hit point on the ray, outward
/// normal `(point - center) / radius`.
pub open spec fn sphere_record_s(s: Sphere, ray: Ray, t: int) -> Collision {
    let p = at_s(ray, t);
    let outward = Vec3 {
        x: fdiv(p.x - s.center.x, s.radius as int) as i64,
        y: fdiv(p.y - s.center.y, s.radius as int) as i64,
        z: fdiv(p.z - s.center.z, s.radius as int) as i64,
    };
    collision_new_s(ray, t, p, outward, s.material as int)
}

impl Collision {
    /// Construct a collision record.
    ///
    /// * `ray` - Colliding ray.
    /// * `t` - Distance along ray at which collision occurred.
    /// * `point` - Point in space at which collision occurred.
    /// * `outward_normal` - Vector at the point of collision normal to the
    ///   surface of the collided object, pointing outward.
    /// * `material` - Material index of the collided object.
    fn new(ray: &Ray, t: i64, point: Vec3, outward_normal: Vec3, material: usize) -> (r: Self)
        requires
            outward_normal.x > i64::MIN,
            outward_normal.y > i64::MIN,
            outward_normal.z > i64::MIN,
        ensures
            r == collision_new_s(*ray, t as int, point, outward_normal, material as int),
            dot_s(ray.direction, r.normal) <= 0,
    {
        proof {
            lemma_fmul_bound(
                ray.direction.x as int,
                outward_normal.x as int,
                0x8000_0000_0000_0000,
                0x8000_0000_0000_0000,
            );
            lemma_fmul_bound(
                ray.direction.y as int,
                outward_normal.y as int,
                0x8000_0000_0000_0000,
                0x8000_0000_0000_0000,
            );
            lemma_fmul_bound(
                ray.direction.z as int,
                outward_normal.z as int,
                0x8000_0000_0000_0000,
                0x8000_0000_0000_0000,
            );
        }
        let dx = muldiv128(
            ray.direction.x as i128,
            outward_normal.x as i128,
            SCALE as i128,
        );
        let dy = muldiv128(
            ray.direction.y as i128,
            outward_normal.y as i128,
            SCALE as i128,
        );
        let dz = muldiv128(
            ray.direction.z as i128,
            outward_normal.z as i128,
            SCALE as i128,
        );
        let front_face = dx + dy + dz < 0;
        proof {
            crate::vector::lemma_dot_neg(ray.direction, outward_normal);
        }
        let normal = if front_face {
            outward_normal
        } else {
            Vec3 { x: -outward_normal.x, y: -outward_normal.y, z: -outward_normal.z }
        };
        Collision { t, point, normal, material, front_face }
    }
}

impl Sphere {
    /// Construct a sphere around `center` with the given radius, made of the
    /// material at index `material` of the scene's arena.
    pub fn new(center: Vec3, radius: i64, material: usize) -> (r: Self)
        requires
            vec_bounded(center, COORD_MAX as int),
            RADIUS_MIN as int <= mag(radius as int) <= COORD_MAX as int,
        ensures
            r == (Sphere { center, radius, material }),
            sphere_wf(r),
    {
        Sphere { center, radius, material }
    }

    /// Find the collision between the sphere and `ray`, if one lies strictly
    /// between `t_min` and `t_max`: the nearest root of the intersection
    /// quadratic is tried first, then the far root.
    ///
    /// * `t_min` - Lower bound on the distance at which collisions are
    ///   considered.
    /// * `t_max` - Upper bound on the distance at which collisions are
    ///   considered.
    pub fn collision(&self, ray: &Ray, t_min: i64, t_max: i64) -> (r: Option<Collision>)
        requires
            sphere_wf(*self),
            vec_bounded(ray.point, RAY_MAX as int),
            vec_bounded(ray.direction, RAY_MAX as int),
            0 <= t_min,
            t_max <= T_CAP,
        ensures
            r == sphere_collide_s(*self, *ray, t_min as int, t_max as int),
            r is Some ==> ({
                let h = r.unwrap();
                &&& t_min < h.t < t_max
                &&& vec_bounded(h.point, POINT_MAX as int)
                &&& dot_s(ray.direction, h.normal) <= 0
                &&& h.material == self.material
            }),
    {
        let ox: i128 = ray.point.x as i128 - self.center.x as i128;
        let oy: i128 = ray.point.y as i128 - self.center.y as i128;
        let oz: i128 = ray.point.z as i128 - self.center.z as i128;
        let dx: i128 = ray.direction.x as i128;
        let dy: i128 = ray.direction.y as i128;
        let dz: i128 = ray.direction.z as i128;
        let sc: i128 = SCALE as i128;
        proof {
            let rm = RAY_MAX as int;
            let om = rm + COORD_MAX as int;
            lemma_fmul_bound(dx as int, dx as int, rm, rm);
            lemma_fmul_bound(dy as int, dy as int, rm, rm);
            lemma_fmul_bound(dz as int, dz as int, rm, rm);
            lemma_fmul_bound(ox as int, dx as int, om, rm);
            lemma_fmul_bound(oy as int, dy as int, om, rm);
            lemma_fmul_bound(oz as int, dz as int, om, rm);
            lemma_fmul_bound(ox as int, ox as int, om, om);
            lemma_fmul_bound(oy as int, oy as int, om, om);
            lemma_fmul_bound(oz as int, oz as int, om, om);
            lemma_fmul_bound(self.radius as int, self.radius as int, COORD_MAX as int, COORD_MAX as int);
        }
        let a: i128 = muldiv128(dx, dx, sc) + muldiv128(dy, dy, sc) + muldiv128(dz, dz, sc);
        let half_b: i128 = muldiv128(ox, dx, sc) + muldiv128(oy, dy, sc) + muldiv128(oz, dz, sc);
        let rr: i128 = muldiv128(self.radius as i128, self.radius as i128, sc);
        let c: i128 = muldiv128(ox, ox, sc) + muldiv128(oy, oy, sc) + muldiv128(oz, oz, sc) - rr;
        proof {
            lemma_fmul_bound(half_b as int, half_b as int, 0x40_0000_0000_0000, 0x40_0000_0000_0000);
            lemma_fmul_bound(a as int, c as int, 0x40_0000_0000_0000, 0x100_0000_0000_0000);
        }
        let discriminant: i128 = muldiv128(half_b, half_b, sc) - muldiv128(a, c, sc);
        if discriminant > 0 && a > 0 {
            let root_u: u64 = isqrt((discriminant as u128) * 65536);
            let root: i128 = root_u as i128;
            proof {
                crate::fixed::lemma_isqrt_bound(
                    discriminant as int * SCALE as int,
                    root as int,
                    0x100_0000_0000_0000,
                );
            }
            let t_near: i128 = muldiv128(-half_b - root, sc, a);
            let t_far: i128 = muldiv128(-half_b + root, sc, a);
            if (t_min as i128) < t_near && t_near < (t_max as i128) {
                Some(self.record(ray, t_near as i64))
            } else if (t_min as i128) < t_far && t_far < (t_max as i128) {
                Some(self.record(ray, t_far as i64))
            } else {
                None
            }
        } else {
            None
        }
    }

    /// Build the collision record for an accepted root.
    fn record(&self, ray: &Ray, t: i64) -> (r: Collision)
        requires
            sphere_wf(*self),
            vec_bounded(ray.point, RAY_MAX as int),
            vec_bounded(ray.direction, RAY_MAX as int),
            0 <= t <= T_CAP,
        ensures
            r == sphere_record_s(*self, *ray, t as int),
            r.t == t,
            vec_bounded(r.point, POINT_MAX as int),
            dot_s(ray.direction, r.normal) <= 0,
            r.material == self.material,
    {
        let p = ray.at(t);
        proof {
            lemma_normal_component(p.x as int - self.center.x as int, self.radius as int);
            lemma_normal_component(p.y as int - self.center.y as int, self.radius as int);
            lemma_normal_component(p.z as int - self.center.z as int, self.radius as int);
        }
        let outward = Vec3 {
            x: fx_div(p.x - self.center.x, self.radius),
            y: fx_div(p.y - self.center.y, self.radius),
            z: fx_div(p.z - self.center.z, self.radius),
        };
        Collision::new(ray, t, p, outward, self.material)
    }
}

/// An outward normal component fits the scalar range: the numerator is a
/// difference of bounded coordinates and the radius is at least `RADIUS_MIN`.
proof fn lemma_normal_component(num: int, radius: int)
    requires
        mag(num) <= POINT_MAX as int + COORD_MAX as int,
        RADIUS_MIN as int <= mag(radius),
    ensures
        mag(fdiv(num, radius)) <= 0x400_0000_0000_0000,
        i64::MIN < fdiv(num, radius) < i64::MAX,
{
    lemma_mag_mul(num, SCALE as int);
    lemma_quot_bound(num * SCALE as int, radius, (POINT_MAX as int + COORD_MAX as int) * SCALE as int);
    crate::fixed::lemma_quot_mag(num * SCALE as int, radius);
    vstd::arithmetic::div_mod::lemma_div_is_ordered_by_denominator(
        (POINT_MAX as int + COORD_MAX as int) * SCALE as int,
        RADIUS_MIN as int,
        mag(radius),
    );
    vstd::arithmetic::div_mod::lemma_div_is_ordered(
        mag(num * SCALE as int),
        (POINT_MAX as int + COORD_MAX as int) * SCALE as int,
        mag(radius),
    );
}

/// A struct with which a ray can collide.
#[derive(Clone, Copy, Debug, PartialEq, Eq, Structural)]
pub enum Collidable {
    Sphere(Sphere),
}

/// The collidable's geometry is well formed.
pub open spec fn collidable_wf(c: Collidable) -> bool {
    match c {
        Collidable::Sphere(s) => sphere_wf(s),
    }
}

/// What the collidable's intersection search returns.
pub open spec fn collide_s(c: Collidable, ray: Ray, t_min: int, t_max: int) -> Option<Collision> {
    match c {
        Collidable::Sphere(s) => sphere_collide_s(s, ray, t_min, t_max),
    }
}

impl Collidable {
    /// Find the collision between the object and `ray`, if one lies strictly
    /// between `t_min` and `t_max`.
    pub fn collision(&self, ray: &Ray, t_min: i64, t_max: i64) -> (r: Option<Collision>)
        requires
            collidable_wf(*self),
            vec_bounded(ray.point, RAY_MAX as int),
            vec_bounded(ray.direction, RAY_MAX as int),
            0 <= t_min,
            t_max <= T_CAP,
        ensures
            r == collide_s(*self, *ray, t_min as int, t_max as int),
            r is Some ==> ({
                let h = r.unwrap();
                &&& t_min < h.t < t_max
                &&& vec_bounded(h.point, POINT_MAX as int)
                &&& dot_s(ray.direction, h.normal) <= 0
            }),
    {
        match self {
            Collidable::Sphere(s) => s.collision(ray, t_min, t_max),
        }
    }
}

/// The collision with the smallest distance parameter over a scene prefix;
/// on a tie the earlier object wins.
pub open spec fn closest_s(objects: Seq<Collidable>, ray: Ray, t_min: int, t_max: int) -> Option<
    Collision,
>
    decreases objects.len(),
{
    if objects.len() == 0 {
        None
    } else {
        let rest = closest_s(objects.drop_last(), ray, t_min, t_max);
        let last = collide_s(objects.last(), ray, t_min, t_max);
        match rest {
            None => last,
            Some(b) => match last {
                None => rest,
                Some(l) => if l.t < b.t {
                    last
                } else {
                    rest
                },
            },
        }
    }
}

/// The closest collision is a collision of some object, and no object's
/// collision is nearer.
pub proof fn lemma_closest_is_nearest(objects: Seq<Collidable>, ray: Ray, t_min: int, t_max: int)
    ensures
        closest_s(objects, ray, t_min, t_max) is None ==> forall|i: int|
            0 <= i < objects.len() ==> #[trigger] collide_s(objects[i], ray, t_min, t_max) is None,
        closest_s(objects, ray, t_min, t_max) is Some ==> exists|i: int|
            0 <= i < objects.len() && #[trigger] collide_s(objects[i], ray, t_min, t_max)
                == closest_s(objects, ray, t_min, t_max),
        closest_s(objects, ray, t_min, t_max) is Some ==> forall|i: int|
            0 <= i < objects.len() && #[trigger] collide_s(objects[i], ray, t_min, t_max) is Some
                ==> closest_s(objects, ray, t_min, t_max).unwrap().t <= collide_s(
                objects[i],
                ray,
                t_min,
                t_max,
            ).unwrap().t,
    decreases objects.len(),
{
    if objects.len() > 0 {
        lemma_closest_is_nearest(objects.drop_last(), ray, t_min, t_max);
        assert(forall|i: int|
            0 <= i < objects.len() - 1 ==> objects.drop_last()[i] == objects[i]);
        assert(objects.last() == objects[objects.len() - 1]);
    }
}

/// Find the collision nearest to the ray's origin over every object of the
/// scene: each object is checked and the globally smallest distance wins.
///
/// * `t_min` - Lower bound on the distance at which collisions are
///   considered.
/// * `t_max` - Upper bound on the distance at which collisions are
///   considered.
pub fn find_closest_collision(
    objects: &Vec<Collidable>,
    ray: &Ray,
    t_min: i64,
    t_max: i64,
) -> (r: Option<Collision>)
    requires
        forall|i: int| 0 <= i < objects@.len() ==> #[trigger] collidable_wf(objects@[i]),
        vec_bounded(ray.point, RAY_MAX as int),
        vec_bounded(ray.direction, RAY_MAX as int),
        0 <= t_min,
        t_max <= T_CAP,
    ensures
        r == closest_s(objects@, *ray, t_min as int, t_max as int),
        r is Some ==> ({
            let h = r.unwrap();
            &&& t_min < h.t < t_max
            &&& vec_bounded(h.point, POINT_MAX as int)
            &&& dot_s(ray.direction, h.normal) <= 0
        }),
        r is None ==> forall|i: int|
            0 <= i < objects@.len() ==> #[trigger] collide_s(
                objects@[i],
                *ray,
                t_min as int,
                t_max as int,
            ) is None,
        r is Some ==> exists|i: int|
            0 <= i < objects@.len() && #[trigger] collide_s(
                objects@[i],
                *ray,
                t_min as int,
                t_max as int,
            ) == r,
        r is Some ==> forall|i: int|
            0 <= i < objects@.len() && #[trigger] collide_s(
                objects@[i],
                *ray,
                t_min as int,
                t_max as int,
            ) is Some ==> r.unwrap().t <= collide_s(
                objects@[i],
                *ray,
                t_min as int,
                t_max as int,
            ).unwrap().t,
{
    proof {
        lemma_closest_is_nearest(objects@, *ray, t_min as int, t_max as int);
    }
    let mut best: Option<Collision> = None;
    let mut i: usize = 0;
    while i < objects.len()
        invariant
            0 <= i <= objects@.len(),
            forall|j: int| 0 <= j < objects@.len() ==> #[trigger] collidable_wf(objects@[j]),
            vec_bounded(ray.point, RAY_MAX as int),
            vec_bounded(ray.direction, RAY_MAX as int),
            0 <= t_min,
            t_max <= T_CAP,
            best == closest_s(objects@.take(i as int), *ray, t_min as int, t_max as int),
            best is Some ==> ({
                let h = best.unwrap();
                &&& t_min < h.t < t_max
                &&& vec_bounded(h.point, POINT_MAX as int)
                &&& dot_s(ray.direction, h.normal) <= 0
            }),
        decreases objects@.len() - i,
    {
        let cand = objects[i].collision(ray, t_min, t_max);
        proof {
            assert(objects@.take(i + 1).drop_last() =~= objects@.take(i as int));
            assert(objects@.take(i + 1).last() == objects@[i as int]);
        }
        match (best, cand) {
            (None, _) => {
                best = cand;
            },
            (_, None) => {},
            (Some(b), Some(l)) => {
                if l.t < b.t {
                    best = cand;
                }
            },
        }
        i = i + 1;
    }
    proof {
        assert(objects@.take(objects@.len() as int) =~= objects@);
    }
    best
}

} // verus!
