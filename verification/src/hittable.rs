//! The intersection protocol: spheres, hit records and the scene
//! aggregate with nearest-hit selection.
//!
//! `sphere_hit_s` and `list_hit_s` are the exact mathematical models
//! of the executable intersection tests; the nearest-hit law is proved
//! from them in `laws`.

use vstd::prelude::*;
use crate::fixed::SCALE;
use crate::fixed::fp_mul_s;
use crate::fixed::fp_div_s;
use crate::fixed::fp_sqrt_s;
use crate::fixed::fp_mul;
use crate::fixed::fp_div;
use crate::fixed::fp_sqrt;
use crate::fixed::lemma_tdiv_mag;
use crate::vec3::Vec3;
use crate::vec3::Point3;
use crate::vec3::V3;
use crate::vec3::v3_sub;
use crate::vec3::v3_neg;
use crate::vec3::v3_scale_div;
use crate::vec3::v3_dot;
use crate::vec3::v3_snorm;
use crate::vec3::v3_fits;
use crate::vec3::bounded;
use crate::vec3::dot_ok;
use crate::vec3::lemma_dot_fits;
use crate::vec3::lemma_fp_mul_fits;
use crate::vec3::lemma_snorm_nonneg;
use crate::ray::Ray;
use crate::ray::RayV;
use crate::ray::ray_at_s;
use crate::material::Material;
use crate::material::MaterialV;
use crate::material::mat_wf;

verus! {

/// Largest magnitude of a scene coordinate (sphere centers, radii).
pub const CENTER_MAX: i64 = 0x400_0000;

/// Smallest admissible sphere radius: far below any visible feature,
/// but large enough that the normal computation cannot overflow.
pub const RADIUS_MIN: i64 = 1024;

/// Largest magnitude of a ray origin component.
pub const ORIGIN_MAX: i64 = 0x1000_0000;

/// Largest magnitude of a ray direction component.
pub const DIR_MAX: i64 = 0x20_0000;

/// Largest magnitude of a surface normal component handed to a
/// material (a unit-like vector with truncation slack).
pub const NORMAL_MAX: i64 = 0x4_0000;

/// Largest magnitude of the parametric interval bounds.
pub const T_LIMIT: i64 = 0x100_0000_0000;

/// Mathematical model of a hit record.
pub ghost struct HitV {
    pub p: V3,
    pub normal: V3,
    pub t: int,
    pub front_face: bool,
    pub material: MaterialV,
}

/// A successful intersection: the hit point, the oriented surface
/// normal, the parametric distance, whether the geometric outward
/// normal agreed with the oriented one, and the surface's material.
#[derive(Clone, Copy)]
pub struct HitRecord {
    pub p: Point3,
    pub normal: Vec3,
    pub t: i64,
    pub front_face: bool,
    pub material: Material,
}

impl View for HitRecord {
    type V = HitV;

    open spec fn view(&self) -> HitV {
        HitV {
            p: self.p@,
            normal: self.normal@,
            t: self.t as int,
            front_face: self.front_face,
            material: self.material@,
        }
    }
}

/// The oriented face normal: the outward normal if it opposes the ray
/// direction, its negation otherwise.
pub open spec fn face_normal_s(ray: RayV, outward: V3) -> V3 {
    if v3_dot(ray.direction, outward) < 0 {
        outward
    } else {
        v3_neg(outward)
    }
}

impl HitRecord {
    /// Orient an outward normal against the ray direction.
    pub fn set_face_normal(ray: &Ray, outward_normal: Vec3) -> (r: Vec3)
        requires
            dot_ok(ray@.direction, outward_normal@),
            v3_fits(v3_neg(outward_normal@)),
        ensures
            r@ == face_normal_s(ray@, outward_normal@),
    {
        let front_face = Vec3::dot(ray.direction, outward_normal) < 0;
        if front_face {
            outward_normal
        } else {
            outward_normal.neg()
        }
    }
}

/// Mathematical model of a sphere.
pub ghost struct SphereV {
    pub center: V3,
    pub radius: int,
    pub material: MaterialV,
}

/// A sphere: center, radius and the material governing its surface.
#[derive(Clone, Copy)]
pub struct Sphere {
    pub center: Point3,
    pub radius: i64,
    pub material: Material,
}

impl View for Sphere {
    type V = SphereV;

    open spec fn view(&self) -> SphereV {
        SphereV { center: self.center@, radius: self.radius as int, material: self.material@ }
    }
}

/// A well-formed sphere: bounded center, radius within the admissible
/// band, well-formed material.
pub open spec fn sphere_wf(sp: SphereV) -> bool {
    bounded(sp.center, CENTER_MAX as int) && RADIUS_MIN <= sp.radius <= CENTER_MAX && mat_wf(
        sp.material,
    )
}

/// A ray whose components the intersection arithmetic can handle.
pub open spec fn ray_bounded(ray: RayV) -> bool {
    bounded(ray.origin, ORIGIN_MAX as int) && bounded(ray.direction, DIR_MAX as int)
}

/// The record produced for an accepted root.
pub open spec fn hit_rec_s(sp: SphereV, ray: RayV, root: int) -> HitV {
    let p = ray_at_s(ray, root);
    let outward = v3_scale_div(v3_sub(p, sp.center), sp.radius);
    HitV {
        p,
        normal: face_normal_s(ray, outward),
        t: root,
        front_face: v3_dot(ray.direction, outward) < 0,
        material: sp.material,
    }
}

/// Exact model of the sphere intersection test: solve the fixed-point
/// quadratic, prefer the smaller root, accept a root only inside
/// `[t_min, t_max]`.  A direction of zero squared norm yields no hit
/// (the quotient would be undefined; in real arithmetic such a ray
/// never leaves its origin).
pub open spec fn sphere_hit_s(sp: SphereV, ray: RayV, t_min: int, t_max: int) -> Option<HitV> {
    let d = ray.direction;
    let oc = v3_sub(ray.origin, sp.center);
    let a = v3_snorm(d);
    let half_b = v3_dot(d, oc);
    let c = v3_snorm(oc) - fp_mul_s(sp.radius, sp.radius);
    let disc = fp_mul_s(half_b, half_b) - fp_mul_s(a, c);
    if a == 0 || disc < 0 {
        Option::None
    } else {
        let sq = fp_sqrt_s(disc);
        let root1 = fp_div_s(-half_b - sq, a);
        let root2 = fp_div_s(-half_b + sq, a);
        if t_min <= root1 && root1 <= t_max {
            Option::Some(hit_rec_s(sp, ray, root1))
        } else if t_min <= root2 && root2 <= t_max {
            Option::Some(hit_rec_s(sp, ray, root2))
        } else {
            Option::None
        }
    }
}

/// The model of an executable hit result.
pub open spec fn hit_view(r: Option<HitRecord>) -> Option<HitV> {
    match r {
        Option::None => Option::None,
        Option::Some(rec) => Option::Some(rec@),
    }
}

/// An accepted root lies inside the queried interval.
pub proof fn lemma_sphere_hit_t_range(sp: SphereV, ray: RayV, t_min: int, t_max: int)
    ensures
        sphere_hit_s(sp, ray, t_min, t_max) matches Option::Some(h) ==> t_min <= h.t <= t_max,
{
}

/// A hit returned by the aggregate carries the material of one of its
/// (well-formed) spheres.
pub proof fn lemma_list_hit_mat_wf(s: Seq<SphereV>, ray: RayV, t_min: int, t_max: int)
    requires
        list_wf(s),
    ensures
        list_hit_s(s, ray, t_min, t_max) matches Option::Some(h) ==> mat_wf(h.material),
    decreases s.len(),
{
    if s.len() > 0 {
        assert forall|i: int| 0 <= i < s.drop_last().len() implies sphere_wf(
            #[trigger] s.drop_last()[i],
        ) by {
            assert(s.drop_last()[i] == s[i]);
        }
        lemma_list_hit_mat_wf(s.drop_last(), ray, t_min, t_max);
        assert(sphere_wf(s.last()));
    }
}

/// The intersection capability: geometric objects and aggregates of
/// them answer nearest-intersection queries against their exact
/// models.
pub trait Hittable {
    /// The mathematical model of this object's intersection test.
    spec fn hit_model(&self, ray: RayV, t_min: int, t_max: int) -> Option<HitV>;

    /// What the intersection arithmetic requires of a query.
    spec fn hit_pre(&self, ray: RayV, t_min: int, t_max: int) -> bool;

    /// The nearest intersection with parameter in `[t_min, t_max]`,
    /// or none.
    fn hit(&self, ray: &Ray, t_min: i64, t_max: i64) -> (r: Option<HitRecord>)
        requires
            self.hit_pre(ray@, t_min as int, t_max as int),
        ensures
            hit_view(r) == self.hit_model(ray@, t_min as int, t_max as int),
    ;
}

impl Hittable for Sphere {
    open spec fn hit_model(&self, ray: RayV, t_min: int, t_max: int) -> Option<HitV> {
        sphere_hit_s(self@, ray, t_min, t_max)
    }

    open spec fn hit_pre(&self, ray: RayV, t_min: int, t_max: int) -> bool {
        sphere_wf(self@) && ray_bounded(ray) && -T_LIMIT <= t_min <= T_LIMIT && -T_LIMIT <= t_max
            <= T_LIMIT
    }

    /// Intersection test against one sphere.
    fn hit(&self, ray: &Ray, t_min: i64, t_max: i64) -> (r: Option<HitRecord>) {
        let d = ray.direction;
        let oc = ray.origin.sub(self.center);
        proof {
            lemma_dot_fits(d@, d@, DIR_MAX as int, DIR_MAX as int);
            lemma_dot_fits(d@, oc@, DIR_MAX as int, 0x2000_0000);
            lemma_dot_fits(oc@, oc@, 0x2000_0000, 0x2000_0000);
            lemma_fp_mul_fits(self@.radius, self@.radius, CENTER_MAX as int, CENTER_MAX as int);
            lemma_snorm_nonneg(d@);
            lemma_snorm_nonneg(oc@);
        }
        let a = d.squared_norm();
        let half_b = d.dot(oc);
        let c = oc.squared_norm() - fp_mul(self.radius, self.radius);
        proof {
            lemma_fp_mul_fits(half_b as int, half_b as int, 0x10_0000_0000, 0x10_0000_0000);
            lemma_fp_mul_fits(a as int, c as int, 0x1000_0000, 0x4000_0000_0000);
        }
        let disc = fp_mul(half_b, half_b) - fp_mul(a, c);
        if a == 0 || disc < 0 {
            return None;
        }
        let sq = fp_sqrt(disc);
        proof {
            assert(sq <= 0x40_0000_0000i64) by (nonlinear_arith)
                requires
                    sq * sq <= disc * SCALE,
                    0 <= disc <= 0x800_0000_0000_0000,
                    SCALE == 65536,
                    sq >= 0,
            ;
            lemma_tdiv_mag((-half_b - sq) * SCALE, a as int, 0x80_0000_0000i64 * SCALE);
            lemma_tdiv_mag((-half_b + sq) * SCALE, a as int, 0x80_0000_0000i64 * SCALE);
        }
        let root1 = fp_div(-half_b - sq, a);
        let root2 = fp_div(-half_b + sq, a);
        let root = if t_min <= root1 && root1 <= t_max {
            root1
        } else if t_min <= root2 && root2 <= t_max {
            root2
        } else {
            return None;
        };
        proof {
            lemma_fp_mul_fits(root as int, d@.x, T_LIMIT as int, DIR_MAX as int);
            lemma_fp_mul_fits(root as int, d@.y, T_LIMIT as int, DIR_MAX as int);
            lemma_fp_mul_fits(root as int, d@.z, T_LIMIT as int, DIR_MAX as int);
        }
        let p = ray.at(root);
        let psub = p.sub(self.center);
        proof {
            crate::fixed::lemma_tdiv_quot_bound(
                psub@.x * SCALE,
                self@.radius,
                0x4000_0000_0000i64 * SCALE,
                RADIUS_MIN as int,
                0x10_0000_0000_0000,
            );
            crate::fixed::lemma_tdiv_quot_bound(
                psub@.y * SCALE,
                self@.radius,
                0x4000_0000_0000i64 * SCALE,
                RADIUS_MIN as int,
                0x10_0000_0000_0000,
            );
            crate::fixed::lemma_tdiv_quot_bound(
                psub@.z * SCALE,
                self@.radius,
                0x4000_0000_0000i64 * SCALE,
                RADIUS_MIN as int,
                0x10_0000_0000_0000,
            );
        }
        let outward = psub.scale_div(self.radius);
        proof {
            lemma_dot_fits(d@, outward@, DIR_MAX as int, 0x10_0000_0000_0000);
        }
        let normal = HitRecord::set_face_normal(ray, outward);
        let front_face = Vec3::dot(ray.direction, outward) < 0;
        let rec = HitRecord { p, normal, t: root, front_face, material: self.material };
        proof {
            assert(rec@ == hit_rec_s(self@, ray@, root as int));
        }
        Some(rec)
    }
}

/// The scene aggregate: an ordered collection of spheres, all of which
/// are tested on every query.
pub struct HittableList {
    pub objects: Vec<Sphere>,
}

impl View for HittableList {
    type V = Seq<SphereV>;

    open spec fn view(&self) -> Seq<SphereV> {
        self.objects@.map(|i: int, s: Sphere| s@)
    }
}

/// Every sphere of the scene is well-formed.
pub open spec fn list_wf(s: Seq<SphereV>) -> bool {
    forall|i: int| 0 <= i < s.len() ==> sphere_wf(#[trigger] s[i])
}

/// Exact model of the aggregate scan: test the spheres in order,
/// shrinking the upper parametric bound to the best hit so far, so the
/// nearest valid hit wins.
pub open spec fn list_hit_s(s: Seq<SphereV>, ray: RayV, t_min: int, t_max: int) -> Option<HitV>
    decreases s.len(),
{
    if s.len() == 0 {
        Option::None
    } else {
        let prefix = list_hit_s(s.drop_last(), ray, t_min, t_max);
        let cur_max = match prefix {
            Option::Some(h) => h.t,
            Option::None => t_max,
        };
        match sphere_hit_s(s.last(), ray, t_min, cur_max) {
            Option::Some(h) => Option::Some(h),
            Option::None => prefix,
        }
    }
}

impl HittableList {
    /// An empty scene.
    pub fn new() -> (r: HittableList)
        ensures
            r@ =~= Seq::<SphereV>::empty(),
    {
        HittableList { objects: Vec::new() }
    }

    /// Append a sphere to the scene.
    pub fn add(&mut self, obj: Sphere)
        ensures
            final(self)@ =~= old(self)@.push(obj@),
    {
        self.objects.push(obj);
    }

}

impl Hittable for HittableList {
    open spec fn hit_model(&self, ray: RayV, t_min: int, t_max: int) -> Option<HitV> {
        list_hit_s(self@, ray, t_min, t_max)
    }

    open spec fn hit_pre(&self, ray: RayV, t_min: int, t_max: int) -> bool {
        list_wf(self@) && ray_bounded(ray) && -T_LIMIT <= t_min <= T_LIMIT && -T_LIMIT <= t_max
            <= T_LIMIT
    }

    /// Intersection test against the whole scene: the nearest valid
    /// hit, or none.
    fn hit(&self, ray: &Ray, t_min: i64, t_max: i64) -> (r: Option<HitRecord>) {
        let ghost s = self@;
        let mut res: Option<HitRecord> = None;
        let mut closest: i64 = t_max;
        let n = self.objects.len();
        let mut i: usize = 0;
        while i < n
            invariant
                n == self.objects.len(),
                0 <= i <= n,
                s == self@,
                list_wf(s),
                ray_bounded(ray@),
                -T_LIMIT <= t_min <= T_LIMIT,
                -T_LIMIT <= t_max <= T_LIMIT,
                hit_view(res) == list_hit_s(s.take(i as int), ray@, t_min as int, t_max as int),
                closest == match list_hit_s(s.take(i as int), ray@, t_min as int, t_max as int) {
                    Option::Some(h) => h.t,
                    Option::None => t_max as int,
                },
                -T_LIMIT <= closest <= T_LIMIT,
                res matches Option::Some(rec) ==> t_min <= rec.t <= t_max,
            decreases n - i,
        {
            proof {
                assert(s[i as int] == self.objects@[i as int]@);
                assert(sphere_wf(s[i as int]));
            }
            let cur = self.objects[i].hit(ray, t_min, closest);
            proof {
                lemma_sphere_hit_t_range(s[i as int], ray@, t_min as int, closest as int);
                assert(s.take(i + 1 as int).drop_last() =~= s.take(i as int));
                assert(s.take(i + 1 as int).last() == s[i as int]);
            }
            match cur {
                Some(rec) => {
                    closest = rec.t;
                    res = Some(rec);
                },
                None => {},
            }
            i = i + 1;
        }
        proof {
            assert(s.take(n as int) =~= s);
        }
        res
    }
}

} // verus!
