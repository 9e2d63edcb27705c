//! The material protocol: given an incoming ray, an intersection
//! record and one random draw, a material either yields a scattered
//! ray with an attenuation color, or absorbs the ray.
//!
//! The decision is a pure function of the inputs (`scatter_s`); the
//! executable `scatter` draws the random vector and is proved to
//! return `scatter_s` applied to some admissible draw.

use vstd::prelude::*;
use crate::fixed::SCALE;
use crate::fixed::lemma_tdiv_mag;
use crate::vec3::Vec3;
use crate::vec3::Color;
use crate::vec3::V3;
use crate::vec3::v3_add;
use crate::vec3::v3_scale;
use crate::vec3::v3_scale_div;
use crate::vec3::v3_dot;
use crate::vec3::v3_norm;
use crate::vec3::v3_reflect;
use crate::vec3::v3_near_zero;
use crate::vec3::bounded;
use crate::vec3::lemma_dot_fits;
use crate::vec3::lemma_fp_mul_fits;
use crate::ray::Ray;
use crate::ray::RayV;
use crate::sampler::Sampler;
use crate::hittable::HitRecord;
use crate::hittable::HitV;
use crate::hittable::ORIGIN_MAX;
use crate::hittable::DIR_MAX;
use crate::hittable::NORMAL_MAX;

verus! {

/// Mathematical model of a material.
pub ghost enum MaterialV {
    Lambertian { albedo: V3 },
    Metal { albedo: V3, fuzz: int },
}

/// A diffuse material: an albedo color.
#[derive(Clone, Copy, Debug)]
pub struct Lambertian {
    pub albedo: Color,
}

/// A reflective material: an albedo color and a fuzz factor in
/// `[0, 1]` that blurs the reflection.
#[derive(Clone, Copy, Debug)]
pub struct Metal {
    pub albedo: Color,
    pub fuzz: i64,
}

/// The closed set of materials.
#[derive(Clone, Copy, Debug)]
pub enum Material {
    Lambertian(Lambertian),
    Metal(Metal),
}

impl View for Material {
    type V = MaterialV;

    open spec fn view(&self) -> MaterialV {
        match *self {
            Material::Lambertian(l) => MaterialV::Lambertian { albedo: l.albedo@ },
            Material::Metal(m) => MaterialV::Metal { albedo: m.albedo@, fuzz: m.fuzz as int },
        }
    }
}

/// Color components inside the unit interval.
pub open spec fn in_unit_box(c: V3) -> bool {
    0 <= c.x <= SCALE && 0 <= c.y <= SCALE && 0 <= c.z <= SCALE
}

/// A well-formed material: albedo channels in `[0, 1]` and, for metal,
/// fuzz in `[0, 1]`.
pub open spec fn mat_wf(m: MaterialV) -> bool {
    match m {
        MaterialV::Lambertian { albedo } => in_unit_box(albedo),
        MaterialV::Metal { albedo, fuzz } => in_unit_box(albedo) && 0 <= fuzz <= SCALE,
    }
}

/// Admissible random draw handed to a scatter: a vector within twice
/// the unit scale (a normalized ball point or a ball point).
pub open spec fn rand_ok(rv: V3) -> bool {
    bounded(rv, 2 * SCALE)
}

/// Scattered direction of the diffuse material: the surface normal
/// plus a random unit vector, falling back to the normal itself when
/// the sum is degenerate.
pub open spec fn lambertian_dir_s(normal: V3, rv: V3) -> V3 {
    let d = v3_add(normal, rv);
    if v3_near_zero(d) {
        normal
    } else {
        d
    }
}

/// Diffuse scattering always succeeds: the scattered ray leaves the
/// hit point and the attenuation is the albedo.
pub open spec fn lambertian_scatter_s(albedo: V3, rec: HitV, rv: V3) -> Option<(RayV, V3)> {
    Some(
        (
            RayV { origin: rec.p, direction: lambertian_dir_s(rec.normal, rv) },
            albedo,
        ),
    )
}

/// Reflective scattering: reflect the normalized incoming direction in
/// the surface normal, perturb it by `fuzz` times a random ball point,
/// and absorb the ray when the result does not leave the surface
/// (nonpositive dot product with the normal).  A degenerate incoming
/// direction (zero fixed-point norm) is absorbed as well.
pub open spec fn metal_scatter_s(albedo: V3, fuzz: int, ray: RayV, rec: HitV, rv: V3) -> Option<
    (RayV, V3),
> {
    let nrm = v3_norm(ray.direction);
    if nrm == 0 {
        None
    } else {
        let u = v3_scale_div(ray.direction, nrm);
        let refl = v3_reflect(u, rec.normal);
        let dir = v3_add(refl, v3_scale(fuzz, rv));
        if v3_dot(dir, rec.normal) > 0 {
            Some((RayV { origin: rec.p, direction: dir }, albedo))
        } else {
            None
        }
    }
}

/// Scattering of any material on one random draw.
pub open spec fn scatter_s(m: MaterialV, ray: RayV, rec: HitV, rv: V3) -> Option<(RayV, V3)> {
    match m {
        MaterialV::Lambertian { albedo } => lambertian_scatter_s(albedo, rec, rv),
        MaterialV::Metal { albedo, fuzz } => metal_scatter_s(albedo, fuzz, ray, rec, rv),
    }
}

/// The model of an executable scatter result.
pub open spec fn scatter_view(r: Option<(Ray, Color)>) -> Option<(RayV, V3)> {
    match r {
        Option::None => Option::None,
        Option::Some((sr, att)) => Option::Some((sr@, att@)),
    }
}

/// A hit record within the magnitude bounds the scatter arithmetic
/// needs.
pub open spec fn rec_bounded(rec: HitV) -> bool {
    bounded(rec.p, ORIGIN_MAX as int) && bounded(rec.normal, NORMAL_MAX as int)
}

impl Material {
    /// Scatter an incoming ray at a hit of this material, drawing the
    /// random vector from the sampler.  The result is `scatter_s`
    /// applied to some admissible draw.
    pub fn scatter(&self, ray: &Ray, rec: &HitRecord, s: &mut Sampler) -> (r: Option<(Ray, Color)>)
        requires
            rec_bounded(rec@),
            bounded(ray@.direction, DIR_MAX as int),
            rec@.material == self@,
            mat_wf(self@),
        ensures
            exists|rv: V3| rand_ok(rv) && scatter_view(r) == scatter_s(self@, ray@, rec@, rv),
    {
        match self {
            Material::Lambertian(l) => {
                let rv = Vec3::random_unit_vector(s);
                let r = lambertian_scatter(l.albedo, rec, rv);
                proof {
                    assert(rand_ok(rv@) && scatter_view(r) == scatter_s(self@, ray@, rec@, rv@));
                }
                r
            },
            Material::Metal(m) => {
                let rv = Vec3::random_in_unit_sphere(s);
                let r = metal_scatter(m.albedo, m.fuzz, ray, rec, rv);
                proof {
                    assert(bounded(rv@, 2 * SCALE));
                    assert(rand_ok(rv@) && scatter_view(r) == scatter_s(self@, ray@, rec@, rv@));
                }
                r
            },
        }
    }
}

/// Diffuse scattering on a given draw; total and exact.
pub fn lambertian_scatter(albedo: Color, rec: &HitRecord, rv: Vec3) -> (r: Option<(Ray, Color)>)
    requires
        rec_bounded(rec@),
        rand_ok(rv@),
    ensures
        scatter_view(r) == lambertian_scatter_s(albedo@, rec@, rv@),
        r is Some,
{
    let d = rec.normal.add(rv);
    let dir = if d.near_zero() {
        rec.normal
    } else {
        d
    };
    Some((Ray { origin: rec.p, direction: dir }, albedo))
}

/// Reflective scattering on a given draw; absorbs exactly when the
/// perturbed reflection does not leave the surface.
pub fn metal_scatter(albedo: Color, fuzz: i64, ray: &Ray, rec: &HitRecord, rv: Vec3) -> (r: Option<
    (Ray, Color),
>)
    requires
        rec_bounded(rec@),
        bounded(ray@.direction, DIR_MAX as int),
        rand_ok(rv@),
        0 <= fuzz <= SCALE,
    ensures
        scatter_view(r) == metal_scatter_s(albedo@, fuzz as int, ray@, rec@, rv@),
{
    let din = ray.direction;
    proof {
        lemma_dot_fits(din@, din@, DIR_MAX as int, DIR_MAX as int);
    }
    let nrm = din.norm();
    if nrm == 0 {
        return None;
    }
    proof {
        lemma_tdiv_mag(din@.x * SCALE, nrm as int, 0x20_0000_0000);
        lemma_tdiv_mag(din@.y * SCALE, nrm as int, 0x20_0000_0000);
        lemma_tdiv_mag(din@.z * SCALE, nrm as int, 0x20_0000_0000);
    }
    let u = din.normalized();
    proof {
        assert(bounded(u@, 0x20_0000_0000));
        lemma_dot_fits(u@, rec@.normal, 0x20_0000_0000, NORMAL_MAX as int);
        lemma_fp_mul_fits(
            2 * v3_dot(u@, rec@.normal),
            rec@.normal.x,
            0x400_0000_0000,
            NORMAL_MAX as int,
        );
        lemma_fp_mul_fits(
            2 * v3_dot(u@, rec@.normal),
            rec@.normal.y,
            0x400_0000_0000,
            NORMAL_MAX as int,
        );
        lemma_fp_mul_fits(
            2 * v3_dot(u@, rec@.normal),
            rec@.normal.z,
            0x400_0000_0000,
            NORMAL_MAX as int,
        );
    }
    let refl = u.reflect(rec.normal);
    proof {
        lemma_fp_mul_fits(fuzz as int, rv@.x, SCALE as int, 2 * SCALE);
        lemma_fp_mul_fits(fuzz as int, rv@.y, SCALE as int, 2 * SCALE);
        lemma_fp_mul_fits(fuzz as int, rv@.z, SCALE as int, 2 * SCALE);
    }
    let fz = rv.scale(fuzz);
    let dir = refl.add(fz);
    proof {
        lemma_dot_fits(dir@, rec@.normal, 0x4000_0000_0000, NORMAL_MAX as int);
    }
    let d = dir.dot(rec.normal);
    if d > 0 {
        Some((Ray { origin: rec.p, direction: dir }, albedo))
    } else {
        None
    }
}

} // verus!
