//! The source of random numbers for sub-pixel offsets and scattering.
//!
//! A `Sampler` either draws fresh entropy from the operating system's
//! generator, or steps a deterministic xorshift stream from a caller's
//! seed, which makes a whole rendering reproducible.  Everything built
//! on top of `next_u64` is verified for every value the draw could
//! take.

use vstd::prelude::*;
use crate::fixed::SCALE;
use crate::fixed::fits;
use crate::fixed::tdiv;
use crate::fixed::tdiv_i128;
use crate::fixed::lemma_tdiv_mag;
use crate::fixed::lemma_tdiv_mono;
use crate::fixed::lemma_tdiv_exact;
use crate::fixed::lemma_isqrt_bounds;
use crate::vec3::Vec3;
use crate::vec3::V3;
use crate::vec3::v3;
use crate::vec3::bounded;
use crate::vec3::v3_fits;
use crate::vec3::v3_snorm;
use crate::vec3::v3_norm;
use crate::vec3::v3_normalized;
use crate::vec3::v3_scale_div;
use crate::vec3::lemma_dot_fits;
use crate::vec3::lemma_snorm_nonneg;

verus! {

/// Replacement seed for the degenerate all-zero xorshift state.
pub const SEED_FALLBACK: u64 = 0x9e3779b97f4a7c15;

/// How many rejection-sampling draws are attempted before falling back
/// to a fixed in-range vector (the probability of ever needing the
/// fallback is negligible, but a verified loop must terminate).
pub const DRAW_ATTEMPTS: u32 = 64;

/// One step of the 64-bit xorshift generator.
pub open spec fn xorshift_s(s: u64) -> u64 {
    let a = s ^ (s << 13u64);
    let b = a ^ (a >> 7u64);
    b ^ (b << 17u64)
}

/// A stream of pseudo-random numbers: either operating-system entropy
/// or a seeded deterministic xorshift.
pub enum Sampler {
    Entropy,
    Seeded { state: u64 },
}

/// Relies on `rand::random::<u64>()`: a fresh draw from the thread-local
/// generator; nothing can be promised of its value.
#[verifier::external_body]
fn entropy_u64() -> u64 {
    rand::random::<u64>()
}

impl Sampler {
    /// A sampler that draws fresh entropy on every call.
    pub fn entropy() -> (r: Sampler)
        ensures
            r is Entropy,
    {
        Sampler::Entropy
    }

    /// A deterministic sampler; the zero seed (a fixed point of
    /// xorshift) is replaced by a fixed odd constant.
    pub fn seeded(seed: u64) -> (r: Sampler)
        ensures
            seed != 0 ==> r == (Sampler::Seeded { state: seed }),
            seed == 0 ==> r == (Sampler::Seeded { state: SEED_FALLBACK }),
    {
        if seed == 0 {
            Sampler::Seeded { state: SEED_FALLBACK }
        } else {
            Sampler::Seeded { state: seed }
        }
    }

    /// Next raw 64-bit draw.
    pub fn next_u64(&mut self) -> (r: u64)
        ensures
            (*old(self)) is Entropy ==> *final(self) == *old(self),
            (*old(self)) matches Sampler::Seeded { state } ==> r == xorshift_s(state)
                && *final(self) == (Sampler::Seeded { state: xorshift_s(state) }),
    {
        match self {
            Sampler::Entropy => entropy_u64(),
            Sampler::Seeded { state } => {
                let s0 = *state;
                let a = s0 ^ (s0 << 13u64);
                let b = a ^ (a >> 7u64);
                let c = b ^ (b << 17u64);
                *state = c;
                c
            },
        }
    }

    /// Next draw reduced below a positive bound.
    pub fn next_below(&mut self, m: u64) -> (r: u64)
        requires
            m > 0,
        ensures
            r < m,
            (*old(self)) is Entropy ==> *final(self) == *old(self),
            (*old(self)) matches Sampler::Seeded { state } ==> r == xorshift_s(state) % m
                && *final(self) == (Sampler::Seeded { state: xorshift_s(state) }),
    {
        let u = self.next_u64();
        u % m
    }

    /// A fixed-point scalar drawn uniformly from `[0, 1)`.
    pub fn unit_scalar(&mut self) -> (r: i64)
        ensures
            0 <= r < SCALE,
            (*old(self)) is Entropy ==> *final(self) == *old(self),
            (*old(self)) matches Sampler::Seeded { state } ==> r == xorshift_s(state) % (
            SCALE as u64) && *final(self) == (Sampler::Seeded { state: xorshift_s(state) }),
    {
        let u = self.next_below(SCALE as u64);
        u as i64
    }

    /// A fixed-point scalar drawn uniformly from `[min, max)`:
    /// `min + (max - min) * u` for a unit draw `u`.
    pub fn range_scalar(&mut self, min: i64, max: i64) -> (r: i64)
        requires
            min < max,
            fits(max - min),
        ensures
            min <= r < max,
            (*old(self)) is Entropy ==> *final(self) == *old(self),
            (*old(self)) matches Sampler::Seeded { state } ==> r == min + tdiv(
                (max - min) * ((xorshift_s(state) % (SCALE as u64)) as int),
                SCALE as int,
            ) && *final(self) == (Sampler::Seeded { state: xorshift_s(state) }),
    {
        let u = self.unit_scalar();
        let span: i64 = max - min;
        proof {
            assert(0 <= (span as int) * (u as int) <= (span as int) * 65536 - 1)
                by (nonlinear_arith)
                requires
                    0 <= u < 65536,
                    0 < span as int,
            ;
        }
        let p: i128 = (span as i128) * (u as i128);
        proof {
            lemma_tdiv_mag(p as int, SCALE as int, p as int);
            lemma_tdiv_mono(p as int, (span as int) * 65536 - 1, SCALE as int);
            vstd::arithmetic::div_mod::lemma_fundamental_div_mod_converse(
                (span as int) * 65536 - 1,
                65536,
                span as int - 1,
                65535,
            );
        }
        let off128: i128 = tdiv_i128(p, SCALE as i128);
        let off: i64 = off128 as i64;
        min + off
    }
}

impl Vec3 {
    /// A vector with three independent unit-interval components.
    pub fn random(s: &mut Sampler) -> (r: Vec3)
        ensures
            bounded(r@, SCALE as int),
            0 <= r@.x < SCALE,
            0 <= r@.y < SCALE,
            0 <= r@.z < SCALE,
    {
        let x = s.unit_scalar();
        let y = s.unit_scalar();
        let z = s.unit_scalar();
        Vec3 { x, y, z }
    }

    /// A vector with three independent components drawn from
    /// `[min, max)`.
    pub fn random_in_range(s: &mut Sampler, min: i64, max: i64) -> (r: Vec3)
        requires
            min < max,
            fits(max - min),
        ensures
            min <= r@.x < max,
            min <= r@.y < max,
            min <= r@.z < max,
    {
        let x = s.range_scalar(min, max);
        let y = s.range_scalar(min, max);
        let z = s.range_scalar(min, max);
        Vec3 { x, y, z }
    }

    /// Rejection-sampled point inside the unit ball: draw componentwise
    /// from `[-1, 1)` and accept when the squared norm is below one.
    /// After `DRAW_ATTEMPTS` rejections the center is returned, so the
    /// loop provably terminates.
    pub fn random_in_unit_sphere(s: &mut Sampler) -> (r: Vec3)
        ensures
            bounded(r@, SCALE as int),
            v3_snorm(r@) < SCALE,
    {
        let mut tries: u32 = 0;
        while tries < DRAW_ATTEMPTS
            invariant
                true,
            decreases DRAW_ATTEMPTS - tries,
        {
            let p = Vec3::random_in_range(s, -SCALE, SCALE);
            proof {
                lemma_dot_fits(p@, p@, SCALE as int, SCALE as int);
            }
            let sn = p.squared_norm();
            if sn < SCALE {
                return p;
            }
            tries = tries + 1;
        }
        proof {
            lemma_snorm_nonneg(v3(0, 0, 0));
        }
        Vec3 { x: 0, y: 0, z: 0 }
    }

    /// A unit-length direction: a rejection-sampled ball point,
    /// normalized.  Draws whose squared norm is below the fixed-point
    /// resolution are rejected as well, since normalizing them would
    /// only amplify truncation noise.  The result is the normalization
    /// of an accepted ball draw, or the fixed unit fallback after the
    /// attempt budget.
    pub fn random_unit_vector(s: &mut Sampler) -> (r: Vec3)
        ensures
            bounded(r@, 2 * SCALE),
            r@ == v3(0, 0, SCALE as int) || exists|p: V3|
                bounded(p, SCALE as int) && 4 <= v3_snorm(p) < SCALE && r@ == v3_normalized(p),
    {
        let mut tries: u32 = 0;
        while tries < DRAW_ATTEMPTS
            invariant
                true,
            decreases DRAW_ATTEMPTS - tries,
        {
            let p = Vec3::random_in_range(s, -SCALE, SCALE);
            proof {
                lemma_dot_fits(p@, p@, SCALE as int, SCALE as int);
            }
            let sn = p.squared_norm();
            if 4 <= sn && sn < SCALE {
                proof {
                    lemma_normalized_mag(p@);
                }
                let r = p.normalized();
                proof {
                    assert(bounded(p@, SCALE as int) && 4 <= v3_snorm(p@) < SCALE && r@
                        == v3_normalized(p@));
                }
                return r;
            }
            tries = tries + 1;
        }
        Vec3 { x: 0, y: 0, z: SCALE }
    }
}

/// Normalizing a ball point of squared norm at least four units keeps
/// every component within twice the scale, and the norm is positive.
pub proof fn lemma_normalized_mag(v: V3)
    requires
        bounded(v, SCALE as int),
        4 <= v3_snorm(v) < SCALE,
    ensures
        v3_norm(v) >= 512,
        v3_fits(v3_scale_div(v, v3_norm(v))),
        bounded(v3_normalized(v), 2 * SCALE),
{
    let sn = v3_snorm(v);
    let n = v3_norm(v);
    lemma_snorm_nonneg(v);
    lemma_isqrt_bounds((sn * SCALE) as nat);
    assert(n == crate::fixed::isqrt_s((sn * SCALE) as nat));
    assert(n * n <= sn * SCALE < (n + 1) * (n + 1));
    // norm is at least 512: (511 + 1)^2 = 262144 <= 4 * SCALE <= sn * SCALE
    assert(n >= 512) by (nonlinear_arith)
        requires
            sn * 65536 < (n + 1) * (n + 1),
            4 <= sn,
            n >= 0,
            sn * 65536 >= 4 * 65536,
    ;
    // each component squared is at most (sn + 1) * SCALE
    lemma_component_sq(v);
    // therefore each component's magnitude is at most 2 * n
    assert(v.x * v.x <= 4 * (n * n) && v.y * v.y <= 4 * (n * n) && v.z * v.z <= 4 * (n * n))
        by (nonlinear_arith)
        requires
            v.x * v.x <= (sn + 1) * 65536,
            v.y * v.y <= (sn + 1) * 65536,
            v.z * v.z <= (sn + 1) * 65536,
            sn * 65536 < (n + 1) * (n + 1),
            n >= 512,
            sn >= 4,
    ;
    assert(-(2 * n) <= v.x <= 2 * n && -(2 * n) <= v.y <= 2 * n && -(2 * n) <= v.z <= 2 * n)
        by (nonlinear_arith)
        requires
            v.x * v.x <= 4 * (n * n),
            v.y * v.y <= 4 * (n * n),
            v.z * v.z <= 4 * (n * n),
            n >= 512,
    ;
    lemma_scale_div_mag(v.x, n);
    lemma_scale_div_mag(v.y, n);
    lemma_scale_div_mag(v.z, n);
}

/// Each squared component is bounded by the squared norm plus the
/// truncation slack.
proof fn lemma_component_sq(v: V3)
    ensures
        v.x * v.x <= (v3_snorm(v) + 1) * SCALE,
        v.y * v.y <= (v3_snorm(v) + 1) * SCALE,
        v.z * v.z <= (v3_snorm(v) + 1) * SCALE,
{
    lemma_snorm_nonneg(v);
    crate::fixed::lemma_tdiv_error(v.x * v.x, SCALE as int);
    crate::fixed::lemma_tdiv_error(v.y * v.y, SCALE as int);
    crate::fixed::lemma_tdiv_error(v.z * v.z, SCALE as int);
    assert(v.x * v.x >= 0 && v.y * v.y >= 0 && v.z * v.z >= 0) by (nonlinear_arith);
    assert(v.x * v.x <= (v3_snorm(v) + 1) * SCALE) by (nonlinear_arith)
        requires
            v.x * v.x - SCALE < tdiv(v.x * v.x, SCALE as int) * SCALE,
            tdiv(v.y * v.y, SCALE as int) >= 0,
            tdiv(v.z * v.z, SCALE as int) >= 0,
            v3_snorm(v) == tdiv(v.x * v.x, SCALE as int) + tdiv(v.y * v.y, SCALE as int) + tdiv(
                v.z * v.z,
                SCALE as int,
            ),
            SCALE == 65536,
    ;
    assert(v.y * v.y <= (v3_snorm(v) + 1) * SCALE) by (nonlinear_arith)
        requires
            v.y * v.y - SCALE < tdiv(v.y * v.y, SCALE as int) * SCALE,
            tdiv(v.x * v.x, SCALE as int) >= 0,
            tdiv(v.z * v.z, SCALE as int) >= 0,
            v3_snorm(v) == tdiv(v.x * v.x, SCALE as int) + tdiv(v.y * v.y, SCALE as int) + tdiv(
                v.z * v.z,
                SCALE as int,
            ),
            SCALE == 65536,
    ;
    assert(v.z * v.z <= (v3_snorm(v) + 1) * SCALE) by (nonlinear_arith)
        requires
            v.z * v.z - SCALE < tdiv(v.z * v.z, SCALE as int) * SCALE,
            tdiv(v.x * v.x, SCALE as int) >= 0,
            tdiv(v.y * v.y, SCALE as int) >= 0,
            v3_snorm(v) == tdiv(v.x * v.x, SCALE as int) + tdiv(v.y * v.y, SCALE as int) + tdiv(
                v.z * v.z,
                SCALE as int,
            ),
            SCALE == 65536,
    ;
}

/// Dividing a component of magnitude at most `2 * n` by the norm `n`
/// keeps it within twice the scale.
proof fn lemma_scale_div_mag(c: int, n: int)
    requires
        n >= 1,
        -(2 * n) <= c <= 2 * n,
    ensures
        -(2 * SCALE) <= crate::fixed::fp_div_s(c, n) <= 2 * SCALE,
{
    assert(-(2 * n * 65536) <= c * 65536 <= 2 * n * 65536) by (nonlinear_arith)
        requires
            -(2 * n) <= c <= 2 * n,
            n >= 1,
    ;
    lemma_tdiv_mono(c * SCALE as int, 2 * n * SCALE as int, n);
    lemma_tdiv_mono(-(2 * n * SCALE as int), c * SCALE as int, n);
    assert(2 * n * 65536 == (2 * 65536) * n) by (nonlinear_arith);
    lemma_tdiv_exact(2 * SCALE as int, n);
    crate::fixed::lemma_tdiv_neg(2 * n * SCALE as int, n);
}

} // verus!
