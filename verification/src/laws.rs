//! The library's laws: properties of the intersection and shading
//! models that hold for all inputs, proved once and for all.

use vstd::prelude::*;
use crate::fixed::SCALE;
use crate::fixed::tdiv;
use crate::fixed::fp_mul_s;
use crate::fixed::fp_div_s;
use crate::fixed::fp_sqrt_s;
use crate::fixed::lemma_tdiv_neg;
use crate::fixed::lemma_tdiv_mono;
use crate::fixed::lemma_tdiv_exact;
use crate::fixed::lemma_isqrt_unique;
use crate::vec3::V3;
use crate::vec3::v3;
use crate::vec3::v3_sub;
use crate::vec3::v3_neg;
use crate::vec3::v3_dot;
use crate::vec3::v3_scale_div;
use crate::vec3::v3_norm;
use crate::ray::RayV;
use crate::material::MaterialV;
use crate::hittable::SphereV;
use crate::hittable::HitV;
use crate::hittable::sphere_hit_s;
use crate::hittable::list_hit_s;
use crate::hittable::hit_rec_s;
use crate::hittable::face_normal_s;
use crate::hittable::lemma_sphere_hit_t_range;
use crate::hittable::RADIUS_MIN;
use crate::hittable::CENTER_MAX;
use crate::render::ray_color_s;
use crate::render::background_s;
use crate::render::black_s;
use crate::render::white_s;
use crate::render::sky_s;

verus! {

/// Negating the right operand negates a dot product (truncation is
/// symmetric about zero).
pub proof fn lemma_dot_neg_right(a: V3, b: V3)
    ensures
        v3_dot(a, v3_neg(b)) == -v3_dot(a, b),
{
    assert(a.x * (-b.x) == -(a.x * b.x) && a.y * (-b.y) == -(a.y * b.y) && a.z * (-b.z) == -(a.z
        * b.z)) by (nonlinear_arith);
    lemma_tdiv_neg(a.x * b.x, SCALE as int);
    lemma_tdiv_neg(a.y * b.y, SCALE as int);
    lemma_tdiv_neg(a.z * b.z, SCALE as int);
}

/// Normal orientation: the normal of any sphere hit never points along
/// the ray; it strictly opposes it unless the ray is exactly tangent
/// in fixed-point arithmetic (dot with the outward normal equal to
/// zero).
pub proof fn lemma_hit_normal_opposes(sp: SphereV, ray: RayV, t_min: int, t_max: int)
    ensures
        sphere_hit_s(sp, ray, t_min, t_max) matches Option::Some(h) ==> v3_dot(
            ray.direction,
            h.normal,
        ) <= 0,
        sphere_hit_s(sp, ray, t_min, t_max) matches Option::Some(h) ==> (v3_dot(
            ray.direction,
            v3_scale_div(v3_sub(h.p, sp.center), sp.radius),
        ) != 0 ==> v3_dot(ray.direction, h.normal) < 0),
{
    if sphere_hit_s(sp, ray, t_min, t_max) is Some {
        let h = sphere_hit_s(sp, ray, t_min, t_max)->Some_0;
        let outward = v3_scale_div(v3_sub(h.p, sp.center), sp.radius);
        assert(h.normal == face_normal_s(ray, outward));
        lemma_dot_neg_right(ray.direction, outward);
    }
}

/// Shrinking the upper parametric bound keeps a hit exactly when its
/// parameter still lies inside, and can never produce a new hit.
pub proof fn lemma_sphere_hit_shrink(sp: SphereV, ray: RayV, t_min: int, t_max: int, t2: int)
    requires
        t2 <= t_max,
    ensures
        sphere_hit_s(sp, ray, t_min, t2) == match sphere_hit_s(sp, ray, t_min, t_max) {
            Option::Some(h) => if h.t <= t2 {
                Option::Some(h)
            } else {
                Option::<HitV>::None
            },
            Option::None => Option::<HitV>::None,
        },
{
    let d = ray.direction;
    let oc = v3_sub(ray.origin, sp.center);
    let a = crate::vec3::v3_snorm(d);
    crate::vec3::lemma_snorm_nonneg(d);
    if a != 0 {
        let half_b = v3_dot(d, oc);
        let c = crate::vec3::v3_snorm(oc) - fp_mul_s(sp.radius, sp.radius);
        let disc = fp_mul_s(half_b, half_b) - fp_mul_s(a, c);
        if disc >= 0 {
            let sq = fp_sqrt_s(disc);
            assert(sq >= 0);
            assert((-half_b - sq) * SCALE <= (-half_b + sq) * SCALE) by (nonlinear_arith)
                requires
                    sq >= 0,
                    SCALE == 65536,
            ;
            lemma_tdiv_mono((-half_b - sq) * SCALE, (-half_b + sq) * SCALE, a);
        }
    }
}

/// Nearest-hit selection: the aggregate returns a hit of one of its
/// spheres, none of which hits strictly nearer; and it returns none
/// only when no sphere hits at all.
pub proof fn lemma_list_hit_nearest(s: Seq<SphereV>, ray: RayV, t_min: int, t_max: int)
    ensures
        list_hit_s(s, ray, t_min, t_max) is None ==> forall|i: int|
            0 <= i < s.len() ==> (#[trigger] sphere_hit_s(s[i], ray, t_min, t_max)) is None,
        list_hit_s(s, ray, t_min, t_max) matches Option::Some(h) ==> exists|i: int|
            0 <= i < s.len() && #[trigger] sphere_hit_s(s[i], ray, t_min, t_max) == Option::Some(h),
        list_hit_s(s, ray, t_min, t_max) matches Option::Some(h) ==> forall|i: int|
            0 <= i < s.len() ==> match #[trigger] sphere_hit_s(s[i], ray, t_min, t_max) {
                Option::Some(g) => h.t <= g.t,
                Option::None => true,
            },
        list_hit_s(s, ray, t_min, t_max) matches Option::Some(h) ==> t_min <= h.t <= t_max,
    decreases s.len(),
{
    if s.len() > 0 {
        let pre = s.drop_last();
        lemma_list_hit_nearest(pre, ray, t_min, t_max);
        let prefix = list_hit_s(pre, ray, t_min, t_max);
        let cur_max = match prefix {
            Option::Some(h) => h.t,
            Option::None => t_max,
        };
        lemma_sphere_hit_shrink(s.last(), ray, t_min, t_max, cur_max);
        lemma_sphere_hit_t_range(s.last(), ray, t_min, cur_max);
        assert(forall|i: int| 0 <= i < pre.len() ==> pre[i] == s[i]);
        assert(s.last() == s[s.len() - 1]);
        match list_hit_s(s, ray, t_min, t_max) {
            Option::Some(h) => {
                match sphere_hit_s(s.last(), ray, t_min, cur_max) {
                    Option::Some(g) => {
                        assert(h == g);
                        assert(sphere_hit_s(s[s.len() - 1], ray, t_min, t_max) == Option::Some(h));
                    },
                    Option::None => {
                        assert(prefix == Option::Some(h));
                    },
                }
            },
            Option::None => {},
        }
    }
}

/// Depth termination: an exhausted depth budget is black, whatever
/// the scene, the ray or the draws.
pub proof fn lemma_ray_color_depth_zero(scene: Seq<SphereV>, ray: RayV, rands: Seq<V3>)
    ensures
        ray_color_s(scene, ray, rands, 0) == black_s(),
{
}

/// Background endpoints: a straight-down unit direction gives exactly
/// white, a straight-up one exactly the sky color.
pub proof fn lemma_background_endpoints(origin: V3)
    ensures
        background_s(RayV { origin, direction: v3(0, -(SCALE as int), 0) }) == white_s(),
        background_s(RayV { origin, direction: v3(0, SCALE as int, 0) }) == sky_s(),
{
    let down = v3(0, -(SCALE as int), 0);
    let up = v3(0, SCALE as int, 0);
    assert(fp_mul_s(0, 0) == 0);
    assert((-65536) * (-65536) == 0x1_0000_0000 && 65536 * 65536 == 0x1_0000_0000)
        by (nonlinear_arith);
    lemma_tdiv_exact(65536, SCALE as int);
    assert(crate::vec3::v3_snorm(down) == SCALE);
    assert(crate::vec3::v3_snorm(up) == SCALE);
    assert(65536 * 65536 == 0x1_0000_0000 && 65537 * 65537 == 0x1_0002_0001) by (nonlinear_arith);
    lemma_isqrt_unique(0x1_0000_0000 as nat, 65536);
    assert(crate::vec3::v3_norm(down) == SCALE);
    lemma_tdiv_exact(-65536, 65536);
    lemma_tdiv_exact(0, 65536);
    let unit_down = v3_scale_div(down, SCALE as int);
    assert(unit_down.y == fp_div_s(-(SCALE as int), SCALE as int));
    assert(unit_down.y == -65536);
    assert(unit_down.x == 0 && unit_down.z == 0);
    let td = tdiv(unit_down.y + SCALE, 2);
    assert(td == 0);
    lemma_tdiv_exact(SCALE as int, SCALE as int);
    lemma_tdiv_exact(crate::render::SKY_R as int, SCALE as int);
    lemma_tdiv_exact(crate::render::SKY_G as int, SCALE as int);
    lemma_tdiv_exact(crate::render::SKY_B as int, SCALE as int);
    assert(background_s(RayV { origin, direction: down }) == white_s());
    let unit_up = v3_scale_div(up, SCALE as int);
    assert(unit_up.y == 65536 && unit_up.x == 0 && unit_up.z == 0);
    let tu = tdiv(unit_up.y + SCALE, 2);
    assert(tu == 65536);
    assert(background_s(RayV { origin, direction: up }) == sky_s());
}

/// Background gradient bounds: for any ray of nonzero fixed-point
/// norm, every channel of the background lies between its sky and
/// white endpoint values, and the blue channel, whose endpoints agree,
/// is exactly one.
pub proof fn lemma_background_bounds(ray: RayV)
    requires
        v3_norm(ray.direction) != 0,
    ensures
        sky_s().x <= background_s(ray).x <= white_s().x,
        sky_s().y <= background_s(ray).y <= white_s().y,
        background_s(ray).z == SCALE,
{
    let s = SCALE as int;
    let unit = v3_scale_div(ray.direction, v3_norm(ray.direction));
    let t = crate::vec3::clamp_s(tdiv(unit.y + s, 2), 0, s);
    assert(0 <= t <= s);
    lemma_tdiv_exact(s - t, s);
    lemma_tdiv_exact(t, s);
    crate::fixed::lemma_tdiv_error(t * crate::render::SKY_R, s);
    crate::fixed::lemma_tdiv_error(t * crate::render::SKY_G, s);
    assert(fp_mul_s(s - t, s) == s - t);
    assert(fp_mul_s(t, s) == t);
    let cx = background_s(ray).x;
    assert(cx == (s - t) + tdiv(t * 32768, s));
    assert(cx * s > (s - t) * s + t * 32768 - s);
    assert(cx * s <= (s - t) * s + t * 32768);
    assert(cx >= 32768 && cx <= s);
    let cy = background_s(ray).y;
    assert(cy == (s - t) + tdiv(t * 45875, s));
    assert(cy * s > (s - t) * s + t * 45875 - s);
    assert(cy * s <= (s - t) * s + t * 45875);
    assert(cy >= 45875 && cy <= s);
    assert(background_s(ray).z == (s - t) + t);
}

/// Reflective scattering with zero fuzz never absorbs a ray that
/// strikes the front of a surface away from grazing incidence: if the
/// hit normal is unit-like (squared norm at least three quarters) and
/// the normalized incoming direction opposes it with a small margin
/// (more than 32 fixed-point units, about 1/2000), the reflection
/// leaves the surface, whatever vector was drawn.  Exactly grazing
/// rays, whose opposing dot product lies within the truncation error
/// of zero, can be absorbed; that is the one excluded band.
pub proof fn lemma_metal_zero_fuzz_scatters(albedo: V3, ray: RayV, rec: HitV, rv: V3)
    requires
        v3_norm(ray.direction) > 0,
        4 * crate::vec3::v3_snorm(rec.normal) >= 3 * SCALE,
        crate::vec3::v3_snorm(rec.normal) <= SCALE,
        v3_dot(crate::vec3::v3_normalized(ray.direction), rec.normal) <= -32,
    ensures
        crate::material::metal_scatter_s(albedo, 0, ray, rec, rv) is Some,
{
    let s = SCALE as int;
    let n = rec.normal;
    let u = crate::vec3::v3_normalized(ray.direction);
    let d = v3_dot(u, n);
    let sn = crate::vec3::v3_snorm(n);
    let nn = n.x * n.x + n.y * n.y + n.z * n.z;
    // squares are nonnegative and the raw squared norm brackets the
    // fixed-point one
    assert(n.x * n.x >= 0 && n.y * n.y >= 0 && n.z * n.z >= 0) by (nonlinear_arith);
    crate::fixed::lemma_tdiv_error(n.x * n.x, s);
    crate::fixed::lemma_tdiv_error(n.y * n.y, s);
    crate::fixed::lemma_tdiv_error(n.z * n.z, s);
    assert(sn * s <= nn);
    assert(nn < sn * s + 3 * s);
    // each normal component is at most s + 1 in magnitude
    assert(n.x * n.x <= nn && n.y * n.y <= nn && n.z * n.z <= nn) by (nonlinear_arith)
        requires
            n.x * n.x >= 0,
            n.y * n.y >= 0,
            n.z * n.z >= 0,
            nn == n.x * n.x + n.y * n.y + n.z * n.z,
    ;
    assert(-(s + 2) <= n.x <= s + 2 && -(s + 2) <= n.y <= s + 2 && -(s + 2) <= n.z <= s + 2)
        by (nonlinear_arith)
        requires
            n.x * n.x <= nn,
            n.y * n.y <= nn,
            n.z * n.z <= nn,
            nn < (s + 3) * s,
            s == 65536,
    ;
    // the reflected direction before truncation
    let tx = tdiv(2 * d * n.x, s);
    let ty = tdiv(2 * d * n.y, s);
    let tz = tdiv(2 * d * n.z, s);
    crate::fixed::lemma_tdiv_error(2 * d * n.x, s);
    crate::fixed::lemma_tdiv_error(2 * d * n.y, s);
    crate::fixed::lemma_tdiv_error(2 * d * n.z, s);
    assert(2 * d * n.x - s < tx * s < 2 * d * n.x + s);
    assert(2 * d * n.y - s < ty * s < 2 * d * n.y + s);
    assert(2 * d * n.z - s < tz * s < 2 * d * n.z + s);
    // multiplied by the (bounded) component, each truncation error
    // stays below s * (s + 2)
    assert(2 * d * (n.x * n.x) - s * (s + 2) < tx * n.x * s < 2 * d * (n.x * n.x) + s * (s + 2))
        by (nonlinear_arith)
        requires
            2 * d * n.x - s < tx * s < 2 * d * n.x + s,
            -(s + 2) <= n.x <= s + 2,
            s == 65536,
    ;
    assert(2 * d * (n.y * n.y) - s * (s + 2) < ty * n.y * s < 2 * d * (n.y * n.y) + s * (s + 2))
        by (nonlinear_arith)
        requires
            2 * d * n.y - s < ty * s < 2 * d * n.y + s,
            -(s + 2) <= n.y <= s + 2,
            s == 65536,
    ;
    assert(2 * d * (n.z * n.z) - s * (s + 2) < tz * n.z * s < 2 * d * (n.z * n.z) + s * (s + 2))
        by (nonlinear_arith)
        requires
            2 * d * n.z - s < tz * s < 2 * d * n.z + s,
            -(s + 2) <= n.z <= s + 2,
            s == 65536,
    ;
    let tsum = tx * n.x + ty * n.y + tz * n.z;
    assert(2 * d * nn - 3 * s * (s + 2) < tsum * s < 2 * d * nn + 3 * s * (s + 2))
        by (nonlinear_arith)
        requires
            2 * d * (n.x * n.x) - s * (s + 2) < tx * n.x * s < 2 * d * (n.x * n.x) + s * (s + 2),
            2 * d * (n.y * n.y) - s * (s + 2) < ty * n.y * s < 2 * d * (n.y * n.y) + s * (s + 2),
            2 * d * (n.z * n.z) - s * (s + 2) < tz * n.z * s < 2 * d * (n.z * n.z) + s * (s + 2),
            nn == n.x * n.x + n.y * n.y + n.z * n.z,
            tsum == tx * n.x + ty * n.y + tz * n.z,
    ;
    // the raw dot of the incoming unit direction brackets d
    let av = u.x * n.x + u.y * n.y + u.z * n.z;
    crate::fixed::lemma_tdiv_error(u.x * n.x, s);
    crate::fixed::lemma_tdiv_error(u.y * n.y, s);
    crate::fixed::lemma_tdiv_error(u.z * n.z, s);
    assert(av - 3 * s < d * s && d * s < av + 3 * s);
    // the raw dot of the reflection with the normal
    let refl = crate::vec3::v3_reflect(u, n);
    assert(refl.x == u.x - tx && refl.y == u.y - ty && refl.z == u.z - tz);
    let dd = refl.x * n.x + refl.y * n.y + refl.z * n.z;
    assert(dd == av - tsum) by (nonlinear_arith)
        requires
            dd == (u.x - tx) * n.x + (u.y - ty) * n.y + (u.z - tz) * n.z,
            av == u.x * n.x + u.y * n.y + u.z * n.z,
            tsum == tx * n.x + ty * n.y + tz * n.z,
    ;
    // the margin beats every truncation error: dd * s is large
    assert(d * (s * s - 2 * nn) >= 16 * (s * s)) by (nonlinear_arith)
        requires
            d <= -32,
            4 * sn >= 3 * s,
            sn * s <= nn,
            s == 65536,
    ;
    assert(dd * s > d * (s * s - 2 * nn) - 6 * (s * s) - 6 * s) by (nonlinear_arith)
        requires
            dd == av - tsum,
            av > d * s - 3 * s,
            tsum * s < 2 * d * nn + 3 * s * (s + 2),
            s == 65536,
    ;
    assert(dd > 3 * s);
    // hence the truncated dot is positive
    crate::fixed::lemma_tdiv_error(refl.x * n.x, s);
    crate::fixed::lemma_tdiv_error(refl.y * n.y, s);
    crate::fixed::lemma_tdiv_error(refl.z * n.z, s);
    assert(v3_dot(refl, n) * s > dd - 3 * s);
    assert(v3_dot(refl, n) > 0);
    // with zero fuzz the perturbation vanishes and the scattered
    // direction is the reflection itself
    let scaled = crate::vec3::v3_scale(0, rv);
    assert(scaled == v3(0, 0, 0));
    assert(crate::vec3::v3_add(refl, scaled) == refl);
    assert(v3_dot(crate::vec3::v3_add(refl, crate::vec3::v3_scale(0, rv)), rec.normal) > 0);
}

/// Axial sphere intersection: a sphere at the origin with radius `r`
/// (a multiple of the fixed-point quantum squared's root granularity,
/// 1/256) and a ray from `(0, 0, 2r)` straight toward negative z hit
/// exactly at parameter `r`, at point `(0, 0, r)`, with the outward
/// unit normal `(0, 0, 1)` and a front face.
pub proof fn lemma_axial_sphere_hit(r: int, m: MaterialV, t_min: int, t_max: int)
    requires
        RADIUS_MIN <= r <= CENTER_MAX,
        r % 256 == 0,
        t_min <= r <= t_max,
    ensures
        sphere_hit_s(
            SphereV { center: v3(0, 0, 0), radius: r, material: m },
            RayV { origin: v3(0, 0, 2 * r), direction: v3(0, 0, -(SCALE as int)) },
            t_min,
            t_max,
        ) == Option::Some(
            HitV {
                p: v3(0, 0, r),
                normal: v3(0, 0, SCALE as int),
                t: r,
                front_face: true,
                material: m,
            },
        ),
{
    let sp = SphereV { center: v3(0, 0, 0), radius: r, material: m };
    let ray = RayV { origin: v3(0, 0, 2 * r), direction: v3(0, 0, -(SCALE as int)) };
    let k = r / 256;
    vstd::arithmetic::div_mod::lemma_fundamental_div_mod(r, 256);
    assert(r == 256 * k);
    assert(fp_mul_s(0, 0) == 0);
    assert(tdiv(0, SCALE as int) == 0);
    // a = |D|^2 = 1
    assert((-65536) * (-65536) == 0x1_0000_0000) by (nonlinear_arith);
    lemma_tdiv_exact(65536, SCALE as int);
    assert(crate::vec3::v3_snorm(ray.direction) == SCALE);
    // half_b = dot(D, O - C) = -2r
    let oc = v3_sub(ray.origin, sp.center);
    assert(oc == v3(0, 0, 2 * r));
    assert((-65536) * (2 * r) == (-(2 * r)) * 65536) by (nonlinear_arith);
    lemma_tdiv_exact(-(2 * r), SCALE as int);
    assert(v3_dot(ray.direction, oc) == -(2 * r));
    // |O - C|^2 = 4 k^2 (scaled), r^2 = k^2 (scaled)
    assert((2 * r) * (2 * r) == (4 * (k * k)) * 65536 && r * r == (k * k) * 65536)
        by (nonlinear_arith)
        requires
            r == 256 * k,
    ;
    lemma_tdiv_exact(4 * (k * k), SCALE as int);
    lemma_tdiv_exact(k * k, SCALE as int);
    assert(crate::vec3::v3_snorm(oc) == 4 * (k * k));
    assert(fp_mul_s(r, r) == k * k);
    let c = crate::vec3::v3_snorm(oc) - fp_mul_s(sp.radius, sp.radius);
    assert(c == 3 * (k * k));
    // discriminant = half_b^2 - a c = k^2 (scaled)
    assert((-(2 * r)) * (-(2 * r)) == (4 * (k * k)) * 65536) by (nonlinear_arith)
        requires
            r == 256 * k,
    ;
    assert(fp_mul_s(-(2 * r), -(2 * r)) == 4 * (k * k));
    assert(65536 * (3 * (k * k)) == (3 * (k * k)) * 65536) by (nonlinear_arith);
    lemma_tdiv_exact(3 * (k * k), SCALE as int);
    assert(fp_mul_s(SCALE as int, c) == 3 * (k * k));
    let disc = fp_mul_s(-(2 * r), -(2 * r)) - fp_mul_s(SCALE as int, c);
    assert(disc == k * k);
    assert(disc >= 0) by (nonlinear_arith)
        requires
            disc == k * k,
    ;
    // sqrt of the discriminant is exactly r
    assert((k * k) * 65536 == r * r) by (nonlinear_arith)
        requires
            r == 256 * k,
    ;
    assert(r * r <= r * r < (r + 1) * (r + 1)) by (nonlinear_arith)
        requires
            r >= 0,
    ;
    lemma_isqrt_unique((r * r) as nat, r as nat);
    assert(fp_sqrt_s(disc) == r);
    // nearer root = (2r - r) / 1 = r
    lemma_tdiv_exact(r, SCALE as int);
    assert((2 * r - r) * 65536 == r * 65536) by (nonlinear_arith);
    assert(fp_div_s(2 * r - r, SCALE as int) == r);
    // hit point (0, 0, r)
    assert((-65536) * r == (-r) * 65536) by (nonlinear_arith);
    lemma_tdiv_exact(-r, SCALE as int);
    assert(fp_mul_s(r, -(SCALE as int)) == -r) by {
        assert(r * (-65536) == (-r) * 65536) by (nonlinear_arith);
    }
    let p = crate::ray::ray_at_s(ray, r);
    assert(p == v3(0, 0, r));
    // outward normal (0, 0, 1)
    assert(0 * 65536 == 0) by (nonlinear_arith);
    lemma_tdiv_exact(0, r);
    assert(r * 65536 == 65536 * r) by (nonlinear_arith);
    lemma_tdiv_exact(SCALE as int, r);
    let outward = v3_scale_div(v3_sub(p, sp.center), sp.radius);
    assert(outward == v3(0, 0, SCALE as int));
    // the normal opposes the ray: front face
    assert((-65536) * 65536 == (-65536) * 65536);
    lemma_tdiv_exact(-65536, SCALE as int);
    assert(v3_dot(ray.direction, outward) == -65536) by {
        assert((-65536) * 65536 == (-65536) * 65536) by (nonlinear_arith);
    }
    assert(hit_rec_s(sp, ray, r) == HitV {
        p: v3(0, 0, r),
        normal: v3(0, 0, SCALE as int),
        t: r,
        front_face: true,
        material: m,
    });
}

} // verus!
