//! Camera encapsulation.
//!
//! The camera derives an orthonormal basis and viewport extents from its
//! user-set state once, in `update`, and maps viewport coordinates plus a
//! random lens offset to world-space rays thereafter: a thin-lens model
//! whose aperture drives depth-of-field blur.

use crate::collide::COORD_MAX;
use crate::entropy::Entropy;
use crate::fixed::{fmul, idiv, lemma_fmul_bound, lemma_quot_mag, mag, quot, SCALE};
use crate::ray::Ray;
use crate::trig::{tan_fx, tan_s, to_radians, to_radians_s};
use crate::vector::{
    add_s, cross_s, mag2_s, normalized_s, scale_s, sub_s, unit_disk_s, vec_bounded, Axis, Vec3,
};
use vstd::arithmetic::div_mod::lemma_div_pos_is_pos;
use vstd::prelude::*;

verus! {

/// Largest componentwise magnitude of the camera's derived viewport
/// vectors.
pub const CAM_DERIVED_MAX: i64 = 0x200_0000_0000_0000;

/// Largest vertical field of view, in raw degrees: a straight angle.
pub const FOV_MAX: i64 = 11796480;

/// Camera encapsulation.
#[derive(Clone, Copy, Debug, PartialEq, Eq, Structural)]
pub struct Camera {
    // User set state:
    pub origin: Vec3,
    pub direction: Vec3,
    pub up: Vec3,
    pub vertical_fov: i64,
    pub aspect_ratio: i64,
    pub aperture: i64,
    pub focus_distance: i64,
    // Calculated state:
    pub horizontal: Vec3,
    pub vertical: Vec3,
    pub lower_left_corner: Vec3,
    pub u_axis: Vec3,
    pub v_axis: Vec3,
}

/// The camera's user-set state is within the scene coordinate range and its
/// derived state within the derived range.
pub open spec fn camera_wf(c: Camera) -> bool {
    &&& vec_bounded(c.origin, COORD_MAX as int)
    &&& vec_bounded(c.direction, COORD_MAX as int)
    &&& vec_bounded(c.up, COORD_MAX as int)
    &&& 0 <= c.vertical_fov <= FOV_MAX
    &&& 0 <= c.aspect_ratio <= COORD_MAX
    &&& 0 <= c.aperture <= COORD_MAX
    &&& mag(c.focus_distance as int) <= COORD_MAX as int
    &&& vec_bounded(c.horizontal, CAM_DERIVED_MAX as int)
    &&& vec_bounded(c.vertical, CAM_DERIVED_MAX as int)
    &&& vec_bounded(c.lower_left_corner, CAM_DERIVED_MAX as int)
    &&& vec_bounded(c.u_axis, 2 * SCALE as int)
    &&& vec_bounded(c.v_axis, 0x1000_0000)
}

/// The derived state `update` computes: viewport extents from the field of
/// view, aspect ratio and focus distance; the right and up camera axes from
/// the up hint and the backward view axis; and the viewport's lower left
/// corner.
pub open spec fn camera_update_s(c: Camera) -> Camera {
    let theta = to_radians_s(c.vertical_fov as int);
    let h = tan_s(quot(theta, 2));
    let viewport_height = 2 * h;
    let viewport_width = fmul(c.aspect_ratio as int, viewport_height);
    let u = normalized_s(cross_s(c.up, c.direction));
    let v = cross_s(c.direction, u);
    let horizontal = scale_s(scale_s(u, viewport_width), c.focus_distance as int);
    let vertical = scale_s(scale_s(v, viewport_height), c.focus_distance as int);
    let lower_left_corner = sub_s(
        sub_s(sub_s(c.origin, scale_s(horizontal, 32768)), scale_s(vertical, 32768)),
        scale_s(c.direction, c.focus_distance as int),
    );
    Camera { horizontal, vertical, lower_left_corner, u_axis: u, v_axis: v, ..c }
}

/// The ray `get_ray` emits for viewport coordinates `(u, v)`: its origin is
/// the camera origin jittered across the lens disk, and it points at the
/// viewport point the coordinates select.
pub open spec fn get_ray_s(c: Camera, u: int, v: int, s0: u64) -> (Ray, u64) {
    let (d, s1) = unit_disk_s(s0, Axis::Z);
    let lens_radius = quot(c.aperture as int, 2);
    let rd = scale_s(d, lens_radius);
    let offset = add_s(scale_s(c.u_axis, rd.x as int), scale_s(c.v_axis, rd.y as int));
    let direction = sub_s(
        sub_s(
            add_s(
                add_s(c.lower_left_corner, scale_s(c.horizontal, u)),
                scale_s(c.vertical, v),
            ),
            c.origin,
        ),
        offset,
    );
    (Ray { point: add_s(c.origin, offset), direction }, s1)
}

impl Camera {
    /// Construct a new camera, all state zero: point it and call `update`
    /// before asking it for rays.
    pub fn new() -> (r: Self)
        ensures
            r == (Camera {
                origin: Vec3 { x: 0i64, y: 0i64, z: 0i64 },
                direction: Vec3 { x: 0i64, y: 0i64, z: 0i64 },
                up: Vec3 { x: 0i64, y: 0i64, z: 0i64 },
                vertical_fov: 0i64,
                aspect_ratio: 0i64,
                aperture: 0i64,
                focus_distance: 0i64,
                horizontal: Vec3 { x: 0i64, y: 0i64, z: 0i64 },
                vertical: Vec3 { x: 0i64, y: 0i64, z: 0i64 },
                lower_left_corner: Vec3 { x: 0i64, y: 0i64, z: 0i64 },
                u_axis: Vec3 { x: 0i64, y: 0i64, z: 0i64 },
                v_axis: Vec3 { x: 0i64, y: 0i64, z: 0i64 },
            }),
            camera_wf(r),
    {
        Camera {
            origin: Vec3::zero(),
            direction: Vec3::zero(),
            up: Vec3::zero(),
            vertical_fov: 0,
            aspect_ratio: 0,
            aperture: 0,
            focus_distance: 0,
            horizontal: Vec3::zero(),
            vertical: Vec3::zero(),
            lower_left_corner: Vec3::zero(),
            u_axis: Vec3::zero(),
            v_axis: Vec3::zero(),
        }
    }

    /// Place the camera.
    pub fn look_from(&mut self, point: Vec3)
        requires
            vec_bounded(point, COORD_MAX as int),
        ensures
            *final(self) == (Camera { origin: point, ..*old(self) }),
    {
        self.origin = point;
    }

    /// Point the camera: the backward view axis becomes the unit vector
    /// from the target to the camera. The target must not coincide with the
    /// camera's position.
    pub fn look_at(&mut self, point: Vec3)
        requires
            vec_bounded(old(self).origin, COORD_MAX as int),
            vec_bounded(point, COORD_MAX as int),
            mag2_s(sub_s(old(self).origin, point)) >= 1,
        ensures
            *final(self) == (Camera {
                direction: normalized_s(sub_s(old(self).origin, point)),
                ..*old(self)
            }),
            vec_bounded(final(self).direction, 2 * SCALE as int),
    {
        let d = self.origin.sub(&point);
        self.direction = d.normalized();
    }

    /// Set the up hint used to derive the camera basis.
    pub fn set_up(&mut self, up: Vec3)
        requires
            vec_bounded(up, COORD_MAX as int),
        ensures
            *final(self) == (Camera { up, ..*old(self) }),
    {
        self.up = up;
    }

    /// Set the vertical field of view, in raw degrees.
    pub fn set_vertical_fov(&mut self, vertical_fov: i64)
        requires
            0 <= vertical_fov <= FOV_MAX,
        ensures
            *final(self) == (Camera { vertical_fov, ..*old(self) }),
    {
        self.vertical_fov = vertical_fov;
    }

    /// Set the width-to-height ratio of the viewport.
    pub fn set_aspect_ratio(&mut self, aspect_ratio: i64)
        requires
            0 <= aspect_ratio <= COORD_MAX,
        ensures
            *final(self) == (Camera { aspect_ratio, ..*old(self) }),
    {
        self.aspect_ratio = aspect_ratio;
    }

    /// Set the lens aperture: zero turns depth-of-field blur off.
    pub fn set_aperture(&mut self, aperture: i64)
        requires
            0 <= aperture <= COORD_MAX,
        ensures
            *final(self) == (Camera { aperture, ..*old(self) }),
    {
        self.aperture = aperture;
    }

    /// Set the distance of the plane of perfect focus.
    pub fn set_focus_distance(&mut self, focus_distance: i64)
        requires
            mag(focus_distance as int) <= COORD_MAX as int,
        ensures
            *final(self) == (Camera { focus_distance, ..*old(self) }),
    {
        self.focus_distance = focus_distance;
    }

    /// Update computed camera state from the user-set state. The up hint
    /// must not be collinear with the view axis.
    #[verifier::rlimit(60)]
    pub fn update(&mut self)
        requires
            camera_wf(*old(self)),
            mag2_s(cross_s(old(self).up, old(self).direction)) >= 1,
        ensures
            *final(self) == camera_update_s(*old(self)),
            camera_wf(*final(self)),
    {
        proof {
            let c = *self;
            lemma_fmul_bound(c.up.y as int, c.direction.z as int, COORD_MAX as int, COORD_MAX as int);
            lemma_fmul_bound(c.up.z as int, c.direction.y as int, COORD_MAX as int, COORD_MAX as int);
            lemma_fmul_bound(c.up.z as int, c.direction.x as int, COORD_MAX as int, COORD_MAX as int);
            lemma_fmul_bound(c.up.x as int, c.direction.z as int, COORD_MAX as int, COORD_MAX as int);
            lemma_fmul_bound(c.up.x as int, c.direction.y as int, COORD_MAX as int, COORD_MAX as int);
            lemma_fmul_bound(c.up.y as int, c.direction.x as int, COORD_MAX as int, COORD_MAX as int);
        }
        let theta = to_radians(self.vertical_fov);
        proof {
            lemma_quot_mag(theta as int, 2);
            lemma_div_pos_is_pos(theta as int, 2);
        }
        let half_theta = idiv(theta, 2);
        let h = tan_fx(half_theta);
        let viewport_height: i64 = 2 * h;
        proof {
            lemma_fmul_bound(
                self.aspect_ratio as int,
                viewport_height as int,
                COORD_MAX as int,
                0x6_0000_0000,
            );
        }
        let viewport_width = crate::fixed::fx_mul(self.aspect_ratio, viewport_height);
        let u = self.up.cross(&self.direction).normalized();
        let v = self.direction.cross(&u);
        proof {
            let ci = *self;
            let cu = cross_s(ci.up, ci.direction);
            let uu = normalized_s(cu);
            let vv = cross_s(ci.direction, uu);
            lemma_fmul_bound(ci.direction.y as int, uu.z as int, COORD_MAX as int, 2 * SCALE as int);
            lemma_fmul_bound(ci.direction.z as int, uu.y as int, COORD_MAX as int, 2 * SCALE as int);
            lemma_fmul_bound(ci.direction.z as int, uu.x as int, COORD_MAX as int, 2 * SCALE as int);
            lemma_fmul_bound(ci.direction.x as int, uu.z as int, COORD_MAX as int, 2 * SCALE as int);
            lemma_fmul_bound(ci.direction.x as int, uu.y as int, COORD_MAX as int, 2 * SCALE as int);
            lemma_fmul_bound(ci.direction.y as int, uu.x as int, COORD_MAX as int, 2 * SCALE as int);
            lemma_fmul_bound(uu.x as int, viewport_width as int, 2 * SCALE as int, 0x1800_0000_0000);
            lemma_fmul_bound(uu.y as int, viewport_width as int, 2 * SCALE as int, 0x1800_0000_0000);
            lemma_fmul_bound(uu.z as int, viewport_width as int, 2 * SCALE as int, 0x1800_0000_0000);
            lemma_fmul_bound(vv.x as int, viewport_height as int, 0x1000_0000, 0x6_0000_0000);
            lemma_fmul_bound(vv.y as int, viewport_height as int, 0x1000_0000, 0x6_0000_0000);
            lemma_fmul_bound(vv.z as int, viewport_height as int, 0x1000_0000, 0x6_0000_0000);
        }
        let h1 = u.scale(viewport_width);
        let v1 = v.scale(viewport_height);
        proof {
            lemma_fmul_bound(h1.x as int, self.focus_distance as int, 0x3000_0000_0000, COORD_MAX as int);
            lemma_fmul_bound(h1.y as int, self.focus_distance as int, 0x3000_0000_0000, COORD_MAX as int);
            lemma_fmul_bound(h1.z as int, self.focus_distance as int, 0x3000_0000_0000, COORD_MAX as int);
            lemma_fmul_bound(v1.x as int, self.focus_distance as int, 0x6000_0000_0000, COORD_MAX as int);
            lemma_fmul_bound(v1.y as int, self.focus_distance as int, 0x6000_0000_0000, COORD_MAX as int);
            lemma_fmul_bound(v1.z as int, self.focus_distance as int, 0x6000_0000_0000, COORD_MAX as int);
        }
        let horizontal = h1.scale(self.focus_distance);
        let vertical = v1.scale(self.focus_distance);
        proof {
            lemma_fmul_bound(horizontal.x as int, 32768, 0xC0_0000_0000_0000, 32768);
            lemma_fmul_bound(horizontal.y as int, 32768, 0xC0_0000_0000_0000, 32768);
            lemma_fmul_bound(horizontal.z as int, 32768, 0xC0_0000_0000_0000, 32768);
            lemma_fmul_bound(vertical.x as int, 32768, 0x180_0000_0000_0000, 32768);
            lemma_fmul_bound(vertical.y as int, 32768, 0x180_0000_0000_0000, 32768);
            lemma_fmul_bound(vertical.z as int, 32768, 0x180_0000_0000_0000, 32768);
            lemma_fmul_bound(self.direction.x as int, self.focus_distance as int, COORD_MAX as int, COORD_MAX as int);
            lemma_fmul_bound(self.direction.y as int, self.focus_distance as int, COORD_MAX as int, COORD_MAX as int);
            lemma_fmul_bound(self.direction.z as int, self.focus_distance as int, COORD_MAX as int, COORD_MAX as int);
        }
        let lower_left_corner = self
            .origin
            .sub(&horizontal.scale(32768))
            .sub(&vertical.scale(32768))
            .sub(&self.direction.scale(self.focus_distance));
        self.horizontal = horizontal;
        self.vertical = vertical;
        self.lower_left_corner = lower_left_corner;
        self.u_axis = u;
        self.v_axis = v;
    }

    /// Emit the ray for viewport coordinates `(u, v)` in `[0, 1]`, jittered
    /// across the lens disk.
    #[verifier::rlimit(100)]
    pub fn get_ray(&self, u: i64, v: i64, rng: &mut Entropy) -> (r: Ray)
        requires
            camera_wf(*self),
            mag(u as int) <= 2 * SCALE as int,
            mag(v as int) <= 2 * SCALE as int,
        ensures
            ({
                let (ray, s) = get_ray_s(*self, u as int, v as int, old(rng).state);
                r == ray && final(rng).state == s
            }),
    {
        proof {
            lemma_quot_mag(self.aperture as int, 2);
        }
        let lens_radius = idiv(self.aperture, 2);
        let d = Vec3::random_in_unit_disk(rng, Axis::Z);
        proof {
            lemma_fmul_bound(d.x as int, lens_radius as int, SCALE as int, COORD_MAX as int);
            lemma_fmul_bound(d.y as int, lens_radius as int, SCALE as int, COORD_MAX as int);
            lemma_fmul_bound(d.z as int, lens_radius as int, SCALE as int, COORD_MAX as int);
        }
        let rd = d.scale(lens_radius);
        proof {
            lemma_fmul_bound(self.u_axis.x as int, rd.x as int, 2 * SCALE as int, COORD_MAX as int);
            lemma_fmul_bound(self.u_axis.y as int, rd.x as int, 2 * SCALE as int, COORD_MAX as int);
            lemma_fmul_bound(self.u_axis.z as int, rd.x as int, 2 * SCALE as int, COORD_MAX as int);
            lemma_fmul_bound(self.v_axis.x as int, rd.y as int, 0x1000_0000, COORD_MAX as int);
            lemma_fmul_bound(self.v_axis.y as int, rd.y as int, 0x1000_0000, COORD_MAX as int);
            lemma_fmul_bound(self.v_axis.z as int, rd.y as int, 0x1000_0000, COORD_MAX as int);
            lemma_fmul_bound(self.horizontal.x as int, u as int, CAM_DERIVED_MAX as int, 2 * SCALE as int);
            lemma_fmul_bound(self.horizontal.y as int, u as int, CAM_DERIVED_MAX as int, 2 * SCALE as int);
            lemma_fmul_bound(self.horizontal.z as int, u as int, CAM_DERIVED_MAX as int, 2 * SCALE as int);
            lemma_fmul_bound(self.vertical.x as int, v as int, CAM_DERIVED_MAX as int, 2 * SCALE as int);
            lemma_fmul_bound(self.vertical.y as int, v as int, CAM_DERIVED_MAX as int, 2 * SCALE as int);
            lemma_fmul_bound(self.vertical.z as int, v as int, CAM_DERIVED_MAX as int, 2 * SCALE as int);
        }
        let offset = self.u_axis.scale(rd.x).add(&self.v_axis.scale(rd.y));
        let point = self.origin.add(&offset);
        let direction = self
            .lower_left_corner
            .add(&self.horizontal.scale(u))
            .add(&self.vertical.scale(v))
            .sub(&self.origin)
            .sub(&offset);
        Ray::new(point, direction)
    }
}

} // verus!
