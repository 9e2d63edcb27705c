//! The recursive color estimator and the per-pixel sampling loop.
//!
//! `ray_color_s` is the exact model of one estimate: it consumes one
//! random draw per bounce from a sequence, so the executable
//! `ray_color` promises that its result equals the model on some
//! admissible sequence of draws.  A seeded sampler makes the whole
//! rendering reproducible at run time (the scalar draws are pinned
//! exactly by the sampler's contracts; the tests check the pipeline
//! end to end).

use vstd::prelude::*;
use crate::fixed::SCALE;
use crate::fixed::tdiv;
use crate::fixed::tdiv_i128;
use crate::fixed::lemma_tdiv_mag;
use crate::fixed::lemma_tdiv_exact;
use crate::fixed::lemma_tdiv_quot_bound;
use crate::vec3::Vec3;
use crate::vec3::Color;
use crate::vec3::V3;
use crate::vec3::v3;
use crate::vec3::v3_add;
use crate::vec3::v3_mul;
use crate::vec3::v3_scale;
use crate::vec3::v3_scale_div;
use crate::vec3::v3_norm;
use crate::vec3::bounded;
use crate::vec3::lemma_dot_fits;
use crate::vec3::lemma_fp_mul_fits;
use crate::vec3::clamp_s;
use crate::ray::Ray;
use crate::ray::RayV;
use crate::sampler::Sampler;
use crate::material::scatter_s;
use crate::material::scatter_view;
use crate::material::rand_ok;
use crate::material::rec_bounded;
use crate::material::mat_wf;
use crate::material::in_unit_box;
use crate::hittable::HittableList;
use crate::hittable::Hittable;
use crate::hittable::SphereV;
use crate::hittable::list_hit_s;
use crate::hittable::list_wf;
use crate::hittable::lemma_list_hit_mat_wf;
use crate::hittable::ray_bounded;
use crate::hittable::ORIGIN_MAX;
use crate::hittable::NORMAL_MAX;
use crate::hittable::DIR_MAX;
use crate::hittable::T_LIMIT;
use crate::camera::Camera;
use crate::camera::cam_wf;
use crate::camera::cam_ray_s;

verus! {

/// Lower parametric bound of every scene query: a small epsilon that
/// suppresses self-intersection ("shadow acne") of scattered rays at
/// their origin.
pub const T_EPS: i64 = 66;

/// Magnitude bound of every color the estimator returns.
pub const COLOR_MAX: i64 = 0x40_0000_0000;

/// Sky gradient endpoint colors.
pub const SKY_R: i64 = 32768;

pub const SKY_G: i64 = 45875;

pub const SKY_B: i64 = 65536;

pub open spec fn black_s() -> V3 {
    v3(0, 0, 0)
}

pub open spec fn white_s() -> V3 {
    v3(SCALE as int, SCALE as int, SCALE as int)
}

pub open spec fn sky_s() -> V3 {
    v3(SKY_R as int, SKY_G as int, SKY_B as int)
}

/// The background gradient: normalize the direction, map its height
/// to `t` in `[0, 1]` (clamped there, since normalization of short
/// directions can overshoot the unit band by truncation), and blend
/// white toward sky blue.  A direction of zero fixed-point norm
/// yields black.
pub open spec fn background_s(ray: RayV) -> V3 {
    let nrm = v3_norm(ray.direction);
    if nrm == 0 {
        black_s()
    } else {
        let unit = v3_scale_div(ray.direction, nrm);
        let t = clamp_s(tdiv(unit.y + SCALE, 2), 0, SCALE as int);
        v3_add(v3_scale(SCALE - t, white_s()), v3_scale(t, sky_s()))
    }
}

/// Every draw of a sequence is admissible.
pub open spec fn rands_ok(rands: Seq<V3>) -> bool {
    forall|i: int| 0 <= i < rands.len() ==> rand_ok(#[trigger] rands[i])
}

/// Exact model of the color estimate for a ray, given the sequence of
/// random draws used by the bounces (one per level of depth).  A hit
/// whose record or scattered ray exceeds the arithmetic bounds yields
/// black, as an absorbed ray does; such records do not arise from
/// well-formed scenes.
pub open spec fn ray_color_s(scene: Seq<SphereV>, ray: RayV, rands: Seq<V3>, depth: nat) -> V3
    decreases depth,
{
    if depth == 0 {
        black_s()
    } else {
        match list_hit_s(scene, ray, T_EPS as int, T_LIMIT as int) {
            Option::None => background_s(ray),
            Option::Some(rec) => {
                if !rec_bounded(rec) {
                    black_s()
                } else {
                    match scatter_s(rec.material, ray, rec, rands[0]) {
                        Option::None => black_s(),
                        Option::Some((sray, att)) => {
                            if !bounded(sray.direction, DIR_MAX as int) {
                                black_s()
                            } else {
                                v3_mul(
                                    att,
                                    ray_color_s(scene, sray, rands.drop_first(), (depth - 1) as nat),
                                )
                            }
                        },
                    }
                }
            },
        }
    }
}

/// The all-zero draw sequence (used as a witness where the model does
/// not look at the draws).
pub open spec fn zero_rands(n: nat) -> Seq<V3> {
    Seq::new(n, |i: int| v3(0, 0, 0))
}

/// The background color of a bounded ray.
pub fn background(ray: &Ray) -> (r: Color)
    requires
        bounded(ray@.direction, DIR_MAX as int),
    ensures
        r@ == background_s(ray@),
        in_unit_box(r@),
        bounded(r@, COLOR_MAX as int),
{
    let d = ray.direction;
    proof {
        lemma_dot_fits(d@, d@, DIR_MAX as int, DIR_MAX as int);
    }
    let nrm = d.norm();
    if nrm == 0 {
        return Vec3::from(0, 0, 0);
    }
    proof {
        lemma_tdiv_mag(d@.x * SCALE, nrm as int, 0x20_0000_0000);
        lemma_tdiv_mag(d@.y * SCALE, nrm as int, 0x20_0000_0000);
        lemma_tdiv_mag(d@.z * SCALE, nrm as int, 0x20_0000_0000);
    }
    let unit = d.scale_div(nrm);
    let ty: i64 = unit.y() + SCALE;
    proof {
        lemma_tdiv_mag(ty as int, 2, 0x20_0001_0000);
    }
    let t128: i128 = tdiv_i128(ty as i128, 2);
    let t: i64 = Vec3::clamp(t128 as i64, 0, SCALE);
    proof {
        lemma_tdiv_exact(SCALE as int - t, SCALE as int);
        lemma_tdiv_exact(t as int, SCALE as int);
        lemma_fp_mul_fits(t as int, SKY_R as int, SCALE as int, SCALE as int);
        lemma_fp_mul_fits(t as int, SKY_G as int, SCALE as int, SCALE as int);
        lemma_fp_mul_fits(t as int, SKY_B as int, SCALE as int, SCALE as int);
        crate::fixed::lemma_fp_mul_unit(t as int, SKY_R as int);
        crate::fixed::lemma_fp_mul_unit(t as int, SKY_G as int);
        crate::fixed::lemma_fp_mul_unit(t as int, SKY_B as int);
    }
    let w = Vec3::from(SCALE, SCALE, SCALE).scale(SCALE - t);
    let sk = Vec3::from(SKY_R, SKY_G, SKY_B).scale(t);
    let r = w.add(sk);
    r
}

/// The recursive color estimate for one ray: query the scene, scatter
/// at the nearest hit, recurse on the scattered ray with one less unit
/// of depth, attenuating on the way out; an exhausted depth budget is
/// black, a miss is the background gradient.
pub fn ray_color(world: &HittableList, ray: &Ray, depth: u32, s: &mut Sampler) -> (r: Color)
    requires
        list_wf(world@),
        ray_bounded(ray@),
    ensures
        in_unit_box(r@),
        bounded(r@, COLOR_MAX as int),
        exists|rands: Seq<V3>|
            rands.len() == depth as nat && rands_ok(rands) && r@ == ray_color_s(
                world@,
                ray@,
                rands,
                depth as nat,
            ),
        depth == 0 ==> r@ == black_s(),
    decreases depth,
{
    if depth == 0 {
        let r = Vec3::from(0, 0, 0);
        proof {
            let w = Seq::<V3>::empty();
            assert(w.len() == 0 && rands_ok(w) && r@ == ray_color_s(world@, ray@, w, 0));
        }
        return r;
    }
    let hit = world.hit(ray, T_EPS, T_LIMIT);
    match hit {
        None => {
            let bg = background(ray);
            proof {
                let w = zero_rands(depth as nat);
                assert(w.len() == depth as nat && rands_ok(w));
                assert(bg@ == ray_color_s(world@, ray@, w, depth as nat));
            }
            bg
        },
        Some(rec) => {
            proof {
                lemma_list_hit_mat_wf(world@, ray@, T_EPS as int, T_LIMIT as int);
            }
            let ok = rec.p.within(ORIGIN_MAX) && rec.normal.within(NORMAL_MAX);
            if !ok {
                let r = Vec3::from(0, 0, 0);
                proof {
                    let w = zero_rands(depth as nat);
                    assert(w.len() == depth as nat && rands_ok(w));
                    assert(r@ == ray_color_s(world@, ray@, w, depth as nat));
                }
                return r;
            }
            let scat = rec.material.scatter(ray, &rec, s);
            match scat {
                None => {
                    let r = Vec3::from(0, 0, 0);
                    proof {
                        let rv = choose|rv: V3|
                            rand_ok(rv) && scatter_view(scat) == scatter_s(
                                rec@.material,
                                ray@,
                                rec@,
                                rv,
                            );
                        let w = seq![rv] + zero_rands((depth - 1) as nat);
                        assert(w.len() == depth as nat);
                        assert(rands_ok(w)) by {
                            assert(forall|i: int|
                                1 <= i < w.len() ==> w[i] == zero_rands((depth - 1) as nat)[i - 1]);
                        }
                        assert(w[0] == rv);
                        assert(r@ == ray_color_s(world@, ray@, w, depth as nat));
                    }
                    r
                },
                Some((scattered, attenuation)) => {
                    if !scattered.direction.within(DIR_MAX) {
                        let r = Vec3::from(0, 0, 0);
                        proof {
                            let rv = choose|rv: V3|
                                rand_ok(rv) && scatter_view(scat) == scatter_s(
                                    rec@.material,
                                    ray@,
                                    rec@,
                                    rv,
                                );
                            let w = seq![rv] + zero_rands((depth - 1) as nat);
                            assert(w.len() == depth as nat);
                            assert(rands_ok(w)) by {
                                assert(forall|i: int|
                                    1 <= i < w.len() ==> w[i] == zero_rands(
                                        (depth - 1) as nat,
                                    )[i - 1]);
                            }
                            assert(w[0] == rv);
                            assert(r@ == ray_color_s(world@, ray@, w, depth as nat));
                        }
                        return r;
                    }
                    let sub = ray_color(world, &scattered, depth - 1, s);
                    proof {
                        assert(in_unit_box(attenuation@));
                        crate::fixed::lemma_fp_mul_unit(attenuation@.x, sub@.x);
                        crate::fixed::lemma_fp_mul_unit(attenuation@.y, sub@.y);
                        crate::fixed::lemma_fp_mul_unit(attenuation@.z, sub@.z);
                    }
                    let res = attenuation.mul(sub);
                    proof {
                        let rv = choose|rv: V3|
                            rand_ok(rv) && scatter_view(scat) == scatter_s(
                                rec@.material,
                                ray@,
                                rec@,
                                rv,
                            );
                        let ws = choose|ws: Seq<V3>|
                            ws.len() == (depth - 1) as nat && rands_ok(ws) && sub@ == ray_color_s(
                                world@,
                                scattered@,
                                ws,
                                (depth - 1) as nat,
                            );
                        let w = seq![rv] + ws;
                        assert(w.len() == depth as nat);
                        assert(rands_ok(w)) by {
                            assert(forall|i: int| 1 <= i < w.len() ==> w[i] == ws[i - 1]);
                        }
                        assert(w[0] == rv);
                        assert(w.drop_first() =~= ws);
                        assert(res@ == ray_color_s(world@, ray@, w, depth as nat));
                    }
                    res
                },
            }
        },
    }
}

/// The componentwise sum of a sequence of colors.
pub open spec fn v3_sum(s: Seq<V3>) -> V3
    decreases s.len(),
{
    if s.len() == 0 {
        v3(0, 0, 0)
    } else {
        v3_add(v3_sum(s.drop_last()), s.last())
    }
}

pub proof fn lemma_v3_sum_push(s: Seq<V3>, x: V3)
    ensures
        v3_sum(s.push(x)) == v3_add(v3_sum(s), x),
{
    assert(s.push(x).drop_last() =~= s);
    assert(s.push(x).last() == x);
}

/// One admissible per-sample estimate for pixel `(i, j)`: the model's
/// color of the camera ray through the jittered pixel coordinates, on
/// some admissible draws.
pub open spec fn sample_estimate(
    scene: Seq<SphereV>,
    cam: crate::camera::CameraV,
    i: int,
    j: int,
    width: int,
    height: int,
    depth: nat,
    c: V3,
) -> bool {
    exists|du: int, dv: int, rands: Seq<V3>|
        0 <= du < SCALE && 0 <= dv < SCALE && rands.len() == depth && rands_ok(rands) && c
            == #[trigger] ray_color_s(
            scene,
            cam_ray_s(cam, tdiv(i * SCALE + du, width - 1), tdiv(j * SCALE + dv, height - 1)),
            rands,
            depth,
        )
}

/// One pixel's accumulated color: for each sample, jitter the pixel
/// coordinates by a sub-pixel offset, trace the camera ray through the
/// scene, and sum the estimates (the caller divides by the sample
/// count when encoding).
pub fn pixel_color(
    world: &HittableList,
    cam: &Camera,
    i: u32,
    j: u32,
    width: u32,
    height: u32,
    samples_per_pixel: u32,
    max_depth: u32,
    s: &mut Sampler,
) -> (r: Color)
    requires
        list_wf(world@),
        cam_wf(cam@),
        2 <= width,
        2 <= height,
        i < width,
        j < height,
        1 <= samples_per_pixel <= 0x10_0000,
    ensures
        0 <= r@.x <= samples_per_pixel as int * SCALE as int,
        0 <= r@.y <= samples_per_pixel as int * SCALE as int,
        0 <= r@.z <= samples_per_pixel as int * SCALE as int,
        exists|cols: Seq<V3>|
            cols.len() == samples_per_pixel as nat && r@ == v3_sum(cols) && forall|m: int|
                0 <= m < cols.len() ==> sample_estimate(
                    world@,
                    cam@,
                    i as int,
                    j as int,
                    width as int,
                    height as int,
                    max_depth as nat,
                    #[trigger] cols[m],
                ),
{
    let mut color = Vec3::from(0, 0, 0);
    let ghost mut cols: Seq<V3> = Seq::empty();
    let mut k: u32 = 0;
    while k < samples_per_pixel
        invariant
            list_wf(world@),
            cam_wf(cam@),
            2 <= width,
            2 <= height,
            i < width,
            j < height,
            1 <= samples_per_pixel <= 0x10_0000,
            0 <= k <= samples_per_pixel,
            0 <= color@.x <= k as int * SCALE as int,
            0 <= color@.y <= k as int * SCALE as int,
            0 <= color@.z <= k as int * SCALE as int,
            cols.len() == k as nat,
            color@ == v3_sum(cols),
            forall|m: int|
                0 <= m < cols.len() ==> sample_estimate(
                    world@,
                    cam@,
                    i as int,
                    j as int,
                    width as int,
                    height as int,
                    max_depth as nat,
                    #[trigger] cols[m],
                ),
        decreases samples_per_pixel - k,
    {
        let du = s.unit_scalar();
        let dv = s.unit_scalar();
        let u = pixel_coord(i, width, du);
        let v = pixel_coord(j, height, dv);
        let ray = cam.get_ray(u, v);
        let pc = ray_color(world, &ray, max_depth, s);
        proof {
            assert((k as int + 1) * SCALE as int == k as int * SCALE as int + SCALE as int)
                by (nonlinear_arith);
            assert(k as int * SCALE as int <= 0x10_0000 * SCALE) by (nonlinear_arith)
                requires
                    0 <= k as int <= 0x10_0000,
            ;
            lemma_v3_sum_push(cols, pc@);
            let rands = choose|rands: Seq<V3>|
                rands.len() == max_depth as nat && rands_ok(rands) && pc@ == ray_color_s(
                    world@,
                    ray@,
                    rands,
                    max_depth as nat,
                );
            assert(sample_estimate(
                world@,
                cam@,
                i as int,
                j as int,
                width as int,
                height as int,
                max_depth as nat,
                pc@,
            )) by {
                assert(0 <= (du as int) && (du as int) < SCALE && 0 <= (dv as int) && (dv as int)
                    < SCALE && rands.len() == max_depth as nat && rands_ok(rands) && pc@
                    == ray_color_s(
                    world@,
                    cam_ray_s(
                        cam@,
                        tdiv(i as int * SCALE + du, width as int - 1),
                        tdiv(j as int * SCALE + dv, height as int - 1),
                    ),
                    rands,
                    max_depth as nat,
                ));
            }
            cols = cols.push(pc@);
        }
        color = color.add(pc);
        k = k + 1;
    }
    color
}

/// The normalized viewport coordinate of pixel index `i` jittered by a
/// unit-interval offset: `(i + offset) / (extent - 1)`.
pub fn pixel_coord(i: u32, extent: u32, offset: i64) -> (r: i64)
    requires
        2 <= extent,
        i < extent,
        0 <= offset < SCALE,
    ensures
        r == tdiv(i as int * SCALE + offset, extent as int - 1),
        0 <= r <= 2 * SCALE,
{
    let num: i64 = (i as i64) * SCALE + offset;
    proof {
        assert(num as int <= (extent as int - 1) * (2 * SCALE as int)) by (nonlinear_arith)
            requires
                num as int == i as int * 65536 + offset,
                i as int <= extent as int - 1,
                0 <= offset < 65536,
                1 <= extent as int - 1,
        ;
        lemma_tdiv_quot_bound(
            num as int,
            extent as int - 1,
            (extent as int - 1) * (2 * SCALE as int),
            extent as int - 1,
            2 * SCALE as int,
        );
    }
    let q128: i128 = tdiv_i128(num as i128, (extent - 1) as i128);
    q128 as i64
}

} // verus!
