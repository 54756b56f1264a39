//! Geometric ray which accrues color from collidable objects.

use crate::collide::{closest_s, collidable_wf, Collidable};
use crate::entropy::Entropy;
use crate::fixed::{
    fmul, lemma_fmul_bound, lemma_fmul_unit_interval, lemma_quot_mag, quot, SCALE,
};
use crate::material::{material_wf, scatter_s, Material, NORMAL_MAX};
use crate::vector::{
    add_s, color_wf, hadamard_s, mag2_s, normalized_s, scale_s, vec_bounded, Vec3,
};
use vstd::arithmetic::div_mod::{lemma_div_multiples_vanish, lemma_div_pos_is_pos};
use vstd::prelude::*;

verus! {

/// Largest componentwise magnitude the integrator accepts for a ray's origin
/// and direction; rays that wander further are treated as absorbed.
pub const RAY_MAX: i64 = 0x4_0000_0000;

/// Largest distance parameter a collision search accepts as its far bound.
pub const T_CAP: i64 = 0x4000_0000;

/// Largest componentwise magnitude a point reached within `T_CAP` of a
/// well-bounded ray can have.
pub const POINT_MAX: i64 = 0x2_0000_0000_0000;

/// Geometric ray.
///
/// Portion of a line passing through a point and along a direction.
#[derive(Clone, Copy, Debug, PartialEq, Eq, Structural)]
pub struct Ray {
    pub point: Vec3,
    pub direction: Vec3,
}

/// The point a ray reaches at distance parameter `t`:
/// `point + t * direction`.
pub open spec fn at_s(r: Ray, t: int) -> Vec3 {
    Vec3 {
        x: (r.point.x + fmul(t, r.direction.x as int)) as i64,
        y: (r.point.y + fmul(t, r.direction.y as int)) as i64,
        z: (r.point.z + fmul(t, r.direction.z as int)) as i64,
    }
}

impl Ray {
    /// Construct a new ray.
    pub fn new(point: Vec3, direction: Vec3) -> (r: Self)
        ensures
            r == (Ray { point, direction }),
    {
        Ray { point, direction }
    }

    /// Point on ray for parameter t.
    pub fn at(&self, t: i64) -> (r: Vec3)
        requires
            vec_bounded(self.point, RAY_MAX as int),
            vec_bounded(self.direction, RAY_MAX as int),
            0 <= t <= T_CAP,
        ensures
            r == at_s(*self, t as int),
            vec_bounded(r, POINT_MAX as int),
    {
        proof {
            lemma_fmul_bound(t as int, self.direction.x as int, T_CAP as int, RAY_MAX as int);
            lemma_fmul_bound(t as int, self.direction.y as int, T_CAP as int, RAY_MAX as int);
            lemma_fmul_bound(t as int, self.direction.z as int, T_CAP as int, RAY_MAX as int);
        }
        Vec3 {
            x: self.point.x + crate::fixed::fx_mul(t, self.direction.x),
            y: self.point.y + crate::fixed::fx_mul(t, self.direction.y),
            z: self.point.z + crate::fixed::fx_mul(t, self.direction.z),
        }
    }

    /// Ray color from the materials of collidables.
    ///
    /// By bouncing off collidable objects the color becomes a composite of
    /// the multiple materials it observes; the channels never leave
    /// `[0, 1]`.
    ///
    /// * `sky` - Color of the background gradient's far end.
    /// * `objects` - The scene's geometry.
    /// * `materials` - The scene's material arena, indexed by collisions.
    /// * `t_min` - Lower bound on the distance at which collisions are
    ///   considered.
    /// * `t_max` - Upper bound on the distance at which collisions are
    ///   considered.
    /// * `max_depth` - Bound on the number of recursive reflections.
    pub fn color(
        &self,
        sky: &Vec3,
        objects: &Vec<Collidable>,
        materials: &Vec<Material>,
        t_min: i64,
        t_max: i64,
        max_depth: usize,
        rng: &mut Entropy,
    ) -> (r: Vec3)
        requires
            color_wf(*sky),
            forall|i: int| 0 <= i < objects@.len() ==> #[trigger] collidable_wf(objects@[i]),
            forall|i: int| 0 <= i < materials@.len() ==> #[trigger] material_wf(materials@[i]),
            0 <= t_min,
            t_max <= T_CAP,
        ensures
            ({
                let (c, s) = trace_s(
                    *sky,
                    objects@,
                    materials@,
                    *self,
                    t_min as int,
                    t_max as int,
                    max_depth as nat,
                    old(rng).state,
                );
                r == c && final(rng).state == s
            }),
            color_wf(r),
            max_depth == 0 ==> r == (Vec3 { x: 0i64, y: 0i64, z: 0i64 }) && final(rng).state == old(
                rng,
            ).state,
        decreases max_depth,
    {
        if max_depth == 0 {
            return Vec3::zero();
        }
        if !(self.point.bounded(RAY_MAX) && self.direction.bounded(RAY_MAX)) {
            return Vec3::zero();
        }
        if self.direction.magnitude_squared() < 1 {
            return Vec3::zero();
        }
        match crate::collide::find_closest_collision(objects, self, t_min, t_max) {
            None => background(sky, &self.direction),
            Some(coll) => {
                if coll.normal.bounded(NORMAL_MAX) && coll.material < materials.len() {
                    let m = materials[coll.material];
                    match m.scatter(self, &coll, rng) {
                        None => Vec3::zero(),
                        Some((scattered, att)) => {
                            let rec = scattered.color(
                                sky,
                                objects,
                                materials,
                                t_min,
                                t_max,
                                max_depth - 1,
                                rng,
                            );
                            proof {
                                lemma_fmul_unit_interval(att.x as int, rec.x as int);
                                lemma_fmul_unit_interval(att.y as int, rec.y as int);
                                lemma_fmul_unit_interval(att.z as int, rec.z as int);
                            }
                            att.hadamard_product(&rec)
                        },
                    }
                } else {
                    Vec3::zero()
                }
            },
        }
    }
}

/// The sky-gradient background for a ray that hits nothing.
fn background(sky: &Vec3, direction: &Vec3) -> (r: Vec3)
    requires
        color_wf(*sky),
        vec_bounded(*direction, RAY_MAX as int),
        mag2_s(*direction) >= 1,
    ensures
        r == background_s(*sky, *direction),
        color_wf(r),
{
    proof {
        lemma_background_convex(*sky, *direction);
    }
    let unit = direction.normalized();
    let ny: i64 = if unit.y > SCALE {
        SCALE
    } else if unit.y < -SCALE {
        -SCALE
    } else {
        unit.y
    };
    let t = crate::fixed::idiv(ny + SCALE, 2);
    proof {
        lemma_quot_mag(ny as int + SCALE as int, 2);
        lemma_div_pos_is_pos(ny as int + SCALE as int, 2);
        lemma_fmul_bound(SCALE as int, SCALE as int - t as int, SCALE as int, SCALE as int);
        lemma_fmul_bound(sky.x as int, t as int, SCALE as int, SCALE as int);
        lemma_fmul_bound(sky.y as int, t as int, SCALE as int, SCALE as int);
        lemma_fmul_bound(sky.z as int, t as int, SCALE as int, SCALE as int);
    }
    let white = Vec3::one();
    white.scale(SCALE - t).add(&sky.scale(t))
}

/// A ray the integrator will follow: origin and direction in range and the
/// direction not degenerate. Anything else is treated as absorbed.
pub open spec fn ray_ok_s(ray: Ray) -> bool {
    &&& vec_bounded(ray.point, RAY_MAX as int)
    &&& vec_bounded(ray.direction, RAY_MAX as int)
    &&& mag2_s(ray.direction) >= 1
}

/// The weight of the sky color in the background gradient: half of one plus
/// the ray's normalized vertical component, the component held within one
/// unit against rounding.
pub open spec fn background_weight_s(direction: Vec3) -> int {
    let unit = normalized_s(direction);
    let ny: int = if unit.y > SCALE {
        SCALE as int
    } else if unit.y < -SCALE {
        -(SCALE as int)
    } else {
        unit.y as int
    };
    quot(ny + SCALE as int, 2)
}

/// The background a ray that hits nothing returns: white and the sky color
/// blended by the background weight.
pub open spec fn background_s(sky: Vec3, direction: Vec3) -> Vec3 {
    let t = background_weight_s(direction);
    add_s(
        scale_s(Vec3 { x: SCALE, y: SCALE, z: SCALE }, SCALE as int - t),
        scale_s(sky, t),
    )
}

/// The color a traced ray accrues, and the entropy state left behind. Each
/// bounce finds the nearest collision, asks its material to scatter, and
/// tints the recursive color by the attenuation; a miss returns the
/// background, and an exhausted depth budget, a degenerate ray, an
/// out-of-range normal or material index, or an absorbing scatter returns
/// black.
pub open spec fn trace_s(
    sky: Vec3,
    objects: Seq<Collidable>,
    materials: Seq<Material>,
    ray: Ray,
    t_min: int,
    t_max: int,
    depth: nat,
    s0: u64,
) -> (Vec3, u64)
    decreases depth,
{
    if depth == 0 {
        (Vec3 { x: 0i64, y: 0i64, z: 0i64 }, s0)
    } else if !ray_ok_s(ray) {
        (Vec3 { x: 0i64, y: 0i64, z: 0i64 }, s0)
    } else {
        match closest_s(objects, ray, t_min, t_max) {
            None => (background_s(sky, ray.direction), s0),
            Some(coll) => {
                if vec_bounded(coll.normal, NORMAL_MAX as int) && coll.material < materials.len() {
                    let (sc, s1) = scatter_s(materials[coll.material as int], ray, coll, s0);
                    match sc {
                        None => (Vec3 { x: 0i64, y: 0i64, z: 0i64 }, s1),
                        Some((scattered, att)) => {
                            let (rec, s2) = trace_s(
                                sky,
                                objects,
                                materials,
                                scattered,
                                t_min,
                                t_max,
                                (depth - 1) as nat,
                                s1,
                            );
                            (hadamard_s(att, rec), s2)
                        },
                    }
                } else {
                    (Vec3 { x: 0i64, y: 0i64, z: 0i64 }, s0)
                }
            },
        }
    }
}

/// The background weight lies in `[0, 1]`, and the background is the convex
/// combination of white and the sky color it weighs: the white channel
/// carries weight `1 - t`, the sky channel weight `t`, and the weights sum
/// to one. The weight depends on the ray's normalized vertical component
/// alone.
pub proof fn lemma_background_convex(sky: Vec3, direction: Vec3)
    requires
        color_wf(sky),
    ensures
        0 <= background_weight_s(direction) <= SCALE as int,
        ({
            let t = background_weight_s(direction);
            let b = background_s(sky, direction);
            &&& b.x == (SCALE as int - t) + fmul(sky.x as int, t)
            &&& b.y == (SCALE as int - t) + fmul(sky.y as int, t)
            &&& b.z == (SCALE as int - t) + fmul(sky.z as int, t)
        }),
        color_wf(background_s(sky, direction)),
{
    let t = background_weight_s(direction);
    let unit = normalized_s(direction);
    let ny: int = if unit.y > SCALE {
        SCALE as int
    } else if unit.y < -SCALE {
        -(SCALE as int)
    } else {
        unit.y as int
    };
    lemma_quot_mag(ny + SCALE as int, 2);
    lemma_div_pos_is_pos(ny + SCALE as int, 2);
    vstd::arithmetic::div_mod::lemma_div_is_ordered(ny + SCALE as int, 2 * SCALE as int, 2);
    assert(t <= 2 * SCALE as int / 2);
    lemma_div_multiples_vanish(SCALE as int - t, SCALE as int);
    lemma_fmul_unit_interval(sky.x as int, t);
    lemma_fmul_unit_interval(sky.y as int, t);
    lemma_fmul_unit_interval(sky.z as int, t);
}

/// Truncating a trace at depth zero yields exactly black, whatever the
/// scene, the ray and the entropy state.
pub proof fn lemma_trace_depth_zero(
    sky: Vec3,
    objects: Seq<Collidable>,
    materials: Seq<Material>,
    ray: Ray,
    t_min: int,
    t_max: int,
    s0: u64,
)
    ensures
        trace_s(sky, objects, materials, ray, t_min, t_max, 0, s0) == (
            Vec3 { x: 0i64, y: 0i64, z: 0i64 },
            s0,
        ),
{
}

/// A trace is a function of the scene, the ray, the bounds, the depth
/// budget and the entropy state alone: two traces from equal entropy states
/// agree exactly, which makes a render reproducible from its seed.
pub proof fn lemma_trace_deterministic(
    sky: Vec3,
    objects: Seq<Collidable>,
    materials: Seq<Material>,
    ray: Ray,
    t_min: int,
    t_max: int,
    depth: nat,
    s1: u64,
    s2: u64,
)
    requires
        s1 == s2,
    ensures
        trace_s(sky, objects, materials, ray, t_min, t_max, depth, s1) == trace_s(
            sky,
            objects,
            materials,
            ray,
            t_min,
            t_max,
            depth,
            s2,
        ),
{
}

/// No bounce creates energy: every channel of a traced color lies in
/// `[0, 1]` whenever the sky and every material's parameters do. In
/// particular no pixel can outshine the brightest blend of white and the
/// sky color.
#[verifier::rlimit(60)]
pub proof fn lemma_trace_energy(
    sky: Vec3,
    objects: Seq<Collidable>,
    materials: Seq<Material>,
    ray: Ray,
    t_min: int,
    t_max: int,
    depth: nat,
    s0: u64,
)
    requires
        color_wf(sky),
        forall|i: int| 0 <= i < materials.len() ==> #[trigger] material_wf(materials[i]),
    ensures
        color_wf(trace_s(sky, objects, materials, ray, t_min, t_max, depth, s0).0),
    decreases depth,
{
    if depth == 0 {
    } else if !ray_ok_s(ray) {
    } else {
        match closest_s(objects, ray, t_min, t_max) {
            None => {
                lemma_background_convex(sky, ray.direction);
            },
            Some(coll) => {
                if vec_bounded(coll.normal, NORMAL_MAX as int) && coll.material
                    < materials.len() {
                    let m = materials[coll.material as int];
                    let (sc, s1) = scatter_s(m, ray, coll, s0);
                    crate::material::lemma_scatter_attenuation(m, ray, coll, s0);
                    match sc {
                        None => {},
                        Some((scattered, att)) => {
                            lemma_trace_energy(
                                sky,
                                objects,
                                materials,
                                scattered,
                                t_min,
                                t_max,
                                (depth - 1) as nat,
                                s1,
                            );
                            let rec = trace_s(
                                sky,
                                objects,
                                materials,
                                scattered,
                                t_min,
                                t_max,
                                (depth - 1) as nat,
                                s1,
                            ).0;
                            lemma_fmul_unit_interval(att.x as int, rec.x as int);
                            lemma_fmul_unit_interval(att.y as int, rec.y as int);
                            lemma_fmul_unit_interval(att.z as int, rec.z as int);
                        },
                    }
                }
            },
        }
    }
}

} // verus!
