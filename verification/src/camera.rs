//! The virtual camera: a fixed eye at the origin looking down the
//! negative z axis through a 16:9 viewport one focal length away.
//! `get_ray` maps normalized viewport coordinates to a world ray.

use vstd::prelude::*;
use crate::fixed::SCALE;
use crate::fixed::fp_mul_s;
use crate::fixed::fp_div_s;
use crate::fixed::fp_mul;
use crate::fixed::fp_div;
use crate::vec3::Vec3;
use crate::vec3::Point3;
use crate::vec3::V3;
use crate::vec3::v3;
use crate::vec3::v3_add;
use crate::vec3::v3_sub;
use crate::vec3::v3_scale;
use crate::vec3::bounded;
use crate::vec3::lemma_fp_mul_fits;
use crate::ray::Ray;
use crate::ray::RayV;
use crate::hittable::ray_bounded;

verus! {

/// Largest magnitude of a camera geometry component (a few viewport
/// units).
pub const CAM_MAX: i64 = 262144;

/// Mathematical model of the camera.
pub ghost struct CameraV {
    pub origin: V3,
    pub lower_left_corner: V3,
    pub horizontal: V3,
    pub vertical: V3,
}

pub struct Camera {
    pub origin: Point3,
    pub lower_left_corner: Point3,
    pub horizontal: Vec3,
    pub vertical: Vec3,
}

impl View for Camera {
    type V = CameraV;

    open spec fn view(&self) -> CameraV {
        CameraV {
            origin: self.origin@,
            lower_left_corner: self.lower_left_corner@,
            horizontal: self.horizontal@,
            vertical: self.vertical@,
        }
    }
}

/// The fixed camera configuration: 16:9 aspect ratio, viewport height
/// two, focal length one, eye at the origin.
pub open spec fn camera_default_s() -> CameraV {
    let aspect = fp_div_s(16 * SCALE, 9 * SCALE);
    let vh = 2 * SCALE;
    let vw = fp_mul_s(aspect, vh);
    let half = SCALE / 2;
    CameraV {
        origin: v3(0, 0, 0),
        lower_left_corner: v3(-fp_mul_s(vw, half), -fp_mul_s(vh, half), -(SCALE as int)),
        horizontal: v3(vw, 0, 0),
        vertical: v3(0, vh, 0),
    }
}

/// All camera components within the camera magnitude bound.
pub open spec fn cam_wf(c: CameraV) -> bool {
    bounded(c.origin, CAM_MAX as int) && bounded(c.lower_left_corner, CAM_MAX as int) && bounded(
        c.horizontal,
        CAM_MAX as int,
    ) && bounded(c.vertical, CAM_MAX as int)
}

/// The ray through normalized viewport coordinates `(u, v)`:
/// `lower_left + u * horizontal + v * vertical - origin`, from the
/// eye point.
pub open spec fn cam_ray_s(c: CameraV, u: int, v: int) -> RayV {
    RayV {
        origin: c.origin,
        direction: v3_sub(
            v3_add(v3_add(c.lower_left_corner, v3_scale(u, c.horizontal)), v3_scale(v, c.vertical)),
            c.origin,
        ),
    }
}

impl Camera {
    /// The fixed default camera.
    pub fn new() -> (r: Camera)
        ensures
            r@ == camera_default_s(),
            cam_wf(r@),
    {
        let aspect: i64 = fp_div(16 * SCALE, 9 * SCALE);
        let viewport_height: i64 = 2 * SCALE;
        let viewport_width: i64 = fp_mul(aspect, viewport_height);
        let focal_length: i64 = SCALE;
        let half: i64 = SCALE / 2;
        let origin = Vec3::from(0, 0, 0);
        let horizontal = Vec3::from(viewport_width, 0, 0);
        let vertical = Vec3::from(0, viewport_height, 0);
        let lower_left_corner = Vec3::from(
            -fp_mul(viewport_width, half),
            -fp_mul(viewport_height, half),
            -focal_length,
        );
        Camera { origin, lower_left_corner, horizontal, vertical }
    }

    /// The camera ray for normalized coordinates `(u, v)`; slight
    /// overshoot past one is allowed for sub-pixel jitter at the
    /// viewport edge.
    pub fn get_ray(&self, u: i64, v: i64) -> (r: Ray)
        requires
            cam_wf(self@),
            0 <= u <= 2 * SCALE,
            0 <= v <= 2 * SCALE,
        ensures
            r@ == cam_ray_s(self@, u as int, v as int),
            ray_bounded(r@),
    {
        proof {
            lemma_fp_mul_fits(u as int, self@.horizontal.x, 2 * SCALE, CAM_MAX as int);
            lemma_fp_mul_fits(u as int, self@.horizontal.y, 2 * SCALE, CAM_MAX as int);
            lemma_fp_mul_fits(u as int, self@.horizontal.z, 2 * SCALE, CAM_MAX as int);
            lemma_fp_mul_fits(v as int, self@.vertical.x, 2 * SCALE, CAM_MAX as int);
            lemma_fp_mul_fits(v as int, self@.vertical.y, 2 * SCALE, CAM_MAX as int);
            lemma_fp_mul_fits(v as int, self@.vertical.z, 2 * SCALE, CAM_MAX as int);
        }
        let uh = self.horizontal.scale(u);
        let vv = self.vertical.scale(v);
        let direction = self.lower_left_corner.add(uh).add(vv).sub(self.origin);
        Ray { origin: self.origin, direction }
    }
}

} // verus!
