//! Ray tracing world encapsulation.
//!
//! A world owns the scene geometry, the material arena the geometry indexes
//! into, the sky color and the render policy (collision bounds, depth
//! budget, sample count), and computes pixel colors: the average of many
//! jittered samples, gamma-corrected by a square root per channel.

use crate::camera::{camera_wf, get_ray_s, Camera};
use crate::collide::{collidable_wf, Collidable};
use crate::color::{channel_s, Color};
use crate::entropy::{draw_of, next_state, Entropy};
use crate::fixed::{fsqrt, fx_sqrt, idiv, lemma_isqrt_bound, lemma_quot_mag, quot, SCALE};
use crate::material::{material_wf, Material};
use crate::ray::{trace_s, T_CAP};
use crate::vector::{add_s, color_wf, Vec3};
use vstd::arithmetic::div_mod::{
    lemma_div_is_ordered, lemma_div_multiples_vanish, lemma_div_pos_is_pos,
};
use vstd::prelude::*;

verus! {

/// Largest sample count and largest image extent the renderer accepts:
/// keeps a pixel's running color sum within the scalar range.
pub const RENDER_MAX: usize = 0x100000;

/// Ray tracing world encapsulation.
pub struct World {
    /// Color of the background gradient's far end.
    pub sky: Vec3,
    /// The scene's geometry.
    pub collidables: Vec<Collidable>,
    /// The scene's materials, indexed by the geometry.
    pub materials: Vec<Material>,
    /// Lower bound on the distance at which collisions are considered.
    pub t_min: i64,
    /// Upper bound on the distance at which collisions are considered.
    pub t_max: i64,
    /// Bound on the number of recursive reflections.
    pub max_depth: usize,
    /// Number of jittered samples averaged per pixel.
    pub samples: usize,
}

/// The world's scene and policy are well formed.
pub open spec fn world_wf(w: World) -> bool {
    &&& color_wf(w.sky)
    &&& forall|i: int| 0 <= i < w.collidables@.len() ==> #[trigger] collidable_wf(w.collidables@[i])
    &&& forall|i: int| 0 <= i < w.materials@.len() ==> #[trigger] material_wf(w.materials@[i])
    &&& 0 <= w.t_min
    &&& w.t_max <= T_CAP
    &&& 1 <= w.samples <= RENDER_MAX
}

/// A jittered viewport coordinate: the pixel index plus a uniform draw,
/// over the last pixel index.
pub open spec fn sample_coord_s(coord: int, extent: int, s: u64) -> int {
    quot(coord * SCALE as int + draw_of(s), extent - 1)
}

/// The sum of the first `n` sample colors of a pixel, with the entropy
/// state left behind: each sample jitters the viewport coordinates, asks
/// the camera for a ray, and traces it.
pub open spec fn sample_sum_s(
    sky: Vec3,
    objects: Seq<Collidable>,
    materials: Seq<Material>,
    camera: Camera,
    x: int,
    y: int,
    width: int,
    height: int,
    t_min: int,
    t_max: int,
    depth: nat,
    n: nat,
    s0: u64,
) -> (Vec3, u64)
    decreases n,
{
    if n == 0 {
        (Vec3 { x: 0i64, y: 0i64, z: 0i64 }, s0)
    } else {
        let (acc, s) = sample_sum_s(
            sky,
            objects,
            materials,
            camera,
            x,
            y,
            width,
            height,
            t_min,
            t_max,
            depth,
            (n - 1) as nat,
            s0,
        );
        let sa = next_state(s);
        let u = sample_coord_s(x, width, sa);
        let sb = next_state(sa);
        let v = sample_coord_s(y, height, sb);
        let (ray, sc) = get_ray_s(camera, u, v, sb);
        let (col, sd) = trace_s(sky, objects, materials, ray, t_min, t_max, depth, sc);
        (add_s(acc, col), sd)
    }
}

/// The color of a pixel: the gamma-corrected (square root) average of its
/// sample colors, converted to integer channels.
pub open spec fn pixel_color_s(
    w: World,
    camera: Camera,
    x: int,
    y: int,
    width: int,
    height: int,
    s0: u64,
) -> (Color, u64) {
    let (sum, s1) = sample_sum_s(
        w.sky,
        w.collidables@,
        w.materials@,
        camera,
        x,
        y,
        width,
        height,
        w.t_min as int,
        w.t_max as int,
        w.max_depth as nat,
        w.samples as nat,
        s0,
    );
    let c = Color {
        r: channel_s(fsqrt(quot(sum.x as int, w.samples as int))) as u32,
        g: channel_s(fsqrt(quot(sum.y as int, w.samples as int))) as u32,
        b: channel_s(fsqrt(quot(sum.z as int, w.samples as int))) as u32,
    };
    (c, s1)
}

/// A jittered coordinate for a pixel inside the image lies within twice the
/// unit interval.
proof fn lemma_sample_coord(coord: int, extent: int, s: u64)
    requires
        0 <= coord <= extent - 1,
        2 <= extent,
    ensures
        0 <= sample_coord_s(coord, extent, s) <= 2 * SCALE as int,
{
    crate::entropy::lemma_draw_bounds(s);
    let w1 = extent - 1;
    let num = coord * SCALE as int + draw_of(s);
    lemma_quot_mag(num, w1);
    lemma_div_pos_is_pos(num, w1);
    assert(coord * SCALE as int <= w1 * SCALE as int) by (nonlinear_arith)
        requires
            0 <= coord <= w1,
    ;
    assert(SCALE as int <= w1 * SCALE as int) by (nonlinear_arith)
        requires
            1 <= w1,
    ;
    assert(w1 * SCALE as int + w1 * SCALE as int == w1 * (2 * SCALE as int)) by (nonlinear_arith);
    lemma_div_is_ordered(num, w1 * (2 * SCALE as int), w1);
    lemma_div_multiples_vanish(2 * SCALE as int, w1);
}

/// An averaged channel stays in the unit interval.
proof fn lemma_average_unit(sum: int, n: int)
    requires
        0 <= sum <= n * SCALE as int,
        1 <= n,
    ensures
        0 <= quot(sum, n) <= SCALE as int,
{
    lemma_quot_mag(sum, n);
    lemma_div_pos_is_pos(sum, n);
    lemma_div_is_ordered(sum, n * SCALE as int, n);
    lemma_div_multiples_vanish(SCALE as int, n);
}

impl World {
    /// Assemble a world from a scene, its material arena, and the render
    /// policy.
    pub fn new(
        sky: Vec3,
        collidables: Vec<Collidable>,
        materials: Vec<Material>,
        t_min: i64,
        t_max: i64,
        max_depth: usize,
        samples: usize,
    ) -> (r: Self)
        requires
            color_wf(sky),
            forall|i: int| 0 <= i < collidables@.len() ==> #[trigger] collidable_wf(collidables@[i]),
            forall|i: int| 0 <= i < materials@.len() ==> #[trigger] material_wf(materials@[i]),
            0 <= t_min,
            t_max <= T_CAP,
            1 <= samples <= RENDER_MAX,
        ensures
            r.sky == sky,
            r.collidables == collidables,
            r.materials == materials,
            r.t_min == t_min,
            r.t_max == t_max,
            r.max_depth == max_depth,
            r.samples == samples,
            world_wf(r),
    {
        World { sky, collidables, materials, t_min, t_max, max_depth, samples }
    }

    /// Calculate pixel color given a camera: the gamma-corrected average of
    /// the world's sample count of jittered traces. Channels come out in
    /// `[0, 255]`.
    pub fn pixel_color(
        &self,
        x: usize,
        y: usize,
        window_width: usize,
        window_height: usize,
        camera: &Camera,
        rng: &mut Entropy,
    ) -> (r: Color)
        requires
            world_wf(*self),
            camera_wf(*camera),
            2 <= window_width <= RENDER_MAX,
            2 <= window_height <= RENDER_MAX,
            x < window_width,
            y < window_height,
        ensures
            ({
                let (c, s) = pixel_color_s(
                    *self,
                    *camera,
                    x as int,
                    y as int,
                    window_width as int,
                    window_height as int,
                    old(rng).state,
                );
                r == c && final(rng).state == s
            }),
            r.r <= 255,
            r.g <= 255,
            r.b <= 255,
    {
        let mut sum = Vec3::zero();
        let mut i: usize = 0;
        while i < self.samples
            invariant
                0 <= i <= self.samples,
                world_wf(*self),
                camera_wf(*camera),
                2 <= window_width <= RENDER_MAX,
                2 <= window_height <= RENDER_MAX,
                x < window_width,
                y < window_height,
                ({
                    let (acc, s) = sample_sum_s(
                        self.sky,
                        self.collidables@,
                        self.materials@,
                        *camera,
                        x as int,
                        y as int,
                        window_width as int,
                        window_height as int,
                        self.t_min as int,
                        self.t_max as int,
                        self.max_depth as nat,
                        i as nat,
                        old(rng).state,
                    );
                    sum == acc && rng.state == s
                }),
                0 <= sum.x <= i * SCALE as int,
                0 <= sum.y <= i * SCALE as int,
                0 <= sum.z <= i * SCALE as int,
            decreases self.samples - i,
        {
            let du = rng.next_unit();
            proof {
                lemma_sample_coord(x as int, window_width as int, rng.state);
            }
            let u = idiv((x as i64) * SCALE + du, window_width as i64 - 1);
            let dv = rng.next_unit();
            proof {
                lemma_sample_coord(y as int, window_height as int, rng.state);
            }
            let v = idiv((y as i64) * SCALE + dv, window_height as i64 - 1);
            let ray = camera.get_ray(u, v, rng);
            let col = ray.color(
                &self.sky,
                &self.collidables,
                &self.materials,
                self.t_min,
                self.t_max,
                self.max_depth,
                rng,
            );
            proof {
                assert((i + 1) * SCALE as int == i * SCALE as int + SCALE as int) by (
                nonlinear_arith);
            }
            sum = sum.add(&col);
            i = i + 1;
        }
        proof {
            lemma_average_unit(sum.x as int, self.samples as int);
            lemma_average_unit(sum.y as int, self.samples as int);
            lemma_average_unit(sum.z as int, self.samples as int);
        }
        let ns = self.samples as i64;
        let ax = idiv(sum.x, ns);
        let ay = idiv(sum.y, ns);
        let az = idiv(sum.z, ns);
        let gx = fx_sqrt(ax);
        let gy = fx_sqrt(ay);
        let gz = fx_sqrt(az);
        proof {
            lemma_isqrt_bound(ax as int * SCALE as int, gx as int, SCALE as int);
            lemma_isqrt_bound(ay as int * SCALE as int, gy as int, SCALE as int);
            lemma_isqrt_bound(az as int * SCALE as int, gz as int, SCALE as int);
        }
        Color::new(gx, gy, gz)
    }
}

} // verus!
