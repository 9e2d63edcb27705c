//! Three-component fixed-point vectors, used for points, directions and
//! colors alike.
//!
//! Every executable operation is specified exactly by a function on the
//! mathematical model `V3` (unbounded integers); the `requires` clauses
//! only rule out machine overflow.

use vstd::prelude::*;
use crate::fixed::SCALE;
use crate::fixed::fits;
use crate::fixed::tdiv;
use crate::fixed::fp_mul_s;
use crate::fixed::fp_div_s;
use crate::fixed::fp_sqrt_s;
use crate::fixed::fp_mul;
use crate::fixed::fp_div;
use crate::fixed::fp_sqrt;
use crate::fixed::tdiv_i128;
use crate::fixed::lemma_tdiv_mag;
use crate::fixed::lemma_tdiv_mono;

verus! {

/// Mathematical model of a vector: three unbounded integers.
pub ghost struct V3 {
    pub x: int,
    pub y: int,
    pub z: int,
}

/// A fixed-point vector; each component stands for `component / SCALE`.
#[derive(Clone, Copy, Debug)]
pub struct Vec3 {
    pub x: i64,
    pub y: i64,
    pub z: i64,
}

/// Colors are vectors whose components are the red, green and blue
/// channels.
pub type Color = Vec3;

/// Points are vectors too.
pub type Point3 = Vec3;

impl View for Vec3 {
    type V = V3;

    open spec fn view(&self) -> V3 {
        V3 { x: self.x as int, y: self.y as int, z: self.z as int }
    }
}

pub open spec fn v3(x: int, y: int, z: int) -> V3 {
    V3 { x, y, z }
}

pub open spec fn v3_fits(a: V3) -> bool {
    fits(a.x) && fits(a.y) && fits(a.z)
}

/// All three components within `[-m, m]`.
pub open spec fn bounded(a: V3, m: int) -> bool {
    -m <= a.x <= m && -m <= a.y <= m && -m <= a.z <= m
}

pub open spec fn v3_add(a: V3, b: V3) -> V3 {
    v3(a.x + b.x, a.y + b.y, a.z + b.z)
}

pub open spec fn v3_sub(a: V3, b: V3) -> V3 {
    v3(a.x - b.x, a.y - b.y, a.z - b.z)
}

pub open spec fn v3_neg(a: V3) -> V3 {
    v3(-a.x, -a.y, -a.z)
}

/// Componentwise fixed-point product.
pub open spec fn v3_mul(a: V3, b: V3) -> V3 {
    v3(fp_mul_s(a.x, b.x), fp_mul_s(a.y, b.y), fp_mul_s(a.z, b.z))
}

/// Scalar times vector.
pub open spec fn v3_scale(k: int, a: V3) -> V3 {
    v3(fp_mul_s(k, a.x), fp_mul_s(k, a.y), fp_mul_s(k, a.z))
}

/// Vector divided by a positive scalar.
pub open spec fn v3_scale_div(a: V3, k: int) -> V3
    recommends
        k > 0,
{
    v3(fp_div_s(a.x, k), fp_div_s(a.y, k), fp_div_s(a.z, k))
}

pub open spec fn v3_dot(a: V3, b: V3) -> int {
    fp_mul_s(a.x, b.x) + fp_mul_s(a.y, b.y) + fp_mul_s(a.z, b.z)
}

pub open spec fn v3_cross(a: V3, b: V3) -> V3 {
    v3(
        fp_mul_s(a.y, b.z) - fp_mul_s(a.z, b.y),
        fp_mul_s(a.z, b.x) - fp_mul_s(a.x, b.z),
        fp_mul_s(a.x, b.y) - fp_mul_s(a.y, b.x),
    )
}

pub open spec fn v3_snorm(a: V3) -> int {
    v3_dot(a, a)
}

pub open spec fn v3_norm(a: V3) -> int {
    fp_sqrt_s(v3_snorm(a))
}

pub open spec fn v3_sdist(a: V3, b: V3) -> int {
    v3_snorm(v3_sub(a, b))
}

pub open spec fn v3_dist(a: V3, b: V3) -> int {
    fp_sqrt_s(v3_sdist(a, b))
}

pub open spec fn v3_normalized(a: V3) -> V3
    recommends
        v3_norm(a) > 0,
{
    v3_scale_div(a, v3_norm(a))
}

/// Reflection of `v` in the plane with normal `n`:
/// `v - 2 * dot(v, n) * n`.
pub open spec fn v3_reflect(v: V3, n: V3) -> V3 {
    v3_sub(v, v3_scale(2 * v3_dot(v, n), n))
}

/// Smallest representable positive scalar; the "near zero" threshold.
pub const NEAR_ZERO_EPS: i64 = 1;

/// The componentwise near-zero test.  Each raw (signed) component is
/// compared against the small positive threshold, not its magnitude, so
/// a vector with large negative components also passes; the scattering
/// fallback only relies on the test succeeding for the true zero vector.
pub open spec fn v3_near_zero(a: V3) -> bool {
    a.x < NEAR_ZERO_EPS && a.y < NEAR_ZERO_EPS && a.z < NEAR_ZERO_EPS
}

/// Overflow headroom for a three-term dot product.
pub open spec fn dot_ok(a: V3, b: V3) -> bool {
    fits(fp_mul_s(a.x, b.x)) && fits(fp_mul_s(a.y, b.y)) && fits(fp_mul_s(a.z, b.z))
        && fits(fp_mul_s(a.x, b.x) + fp_mul_s(a.y, b.y))
        && fits(v3_dot(a, b))
}

/// Overflow headroom for a cross product.
pub open spec fn cross_ok(a: V3, b: V3) -> bool {
    fits(fp_mul_s(a.y, b.z)) && fits(fp_mul_s(a.z, b.y)) && fits(fp_mul_s(a.z, b.x))
        && fits(fp_mul_s(a.x, b.z)) && fits(fp_mul_s(a.x, b.y)) && fits(fp_mul_s(a.y, b.x))
        && v3_fits(v3_cross(a, b))
}

/// A fixed-point product of bounded factors is bounded.
pub proof fn lemma_fp_mul_fits(a: int, b: int, p: int, q: int)
    requires
        -p <= a <= p,
        -q <= b <= q,
        0 <= p,
        0 <= q,
    ensures
        -tdiv(p * q, SCALE as int) <= fp_mul_s(a, b) <= tdiv(p * q, SCALE as int),
        0 <= tdiv(p * q, SCALE as int) <= p * q,
{
    assert(-(p * q) <= a * b <= p * q) by (nonlinear_arith)
        requires
            -p <= a <= p,
            -q <= b <= q,
            0 <= p,
            0 <= q,
    ;
    lemma_tdiv_mono(a * b, p * q, SCALE as int);
    lemma_tdiv_mono(-(p * q), a * b, SCALE as int);
    crate::fixed::lemma_tdiv_neg(p * q, SCALE as int);
    lemma_tdiv_mag(p * q, SCALE as int, p * q);
}

/// Bounded operands give a bounded, overflow-free dot product.
pub proof fn lemma_dot_fits(a: V3, b: V3, p: int, q: int)
    requires
        bounded(a, p),
        bounded(b, q),
        0 <= p,
        0 <= q,
        3 * (p * q) <= 0x7fff_ffff_ffff_ffff * 65536,
    ensures
        dot_ok(a, b),
        -3 * tdiv(p * q, SCALE as int) <= v3_dot(a, b) <= 3 * tdiv(p * q, SCALE as int),
{
    lemma_fp_mul_fits(a.x, b.x, p, q);
    lemma_fp_mul_fits(a.y, b.y, p, q);
    lemma_fp_mul_fits(a.z, b.z, p, q);
}

/// A squared norm is nonnegative.
pub proof fn lemma_snorm_nonneg(a: V3)
    ensures
        v3_snorm(a) >= 0,
        fp_mul_s(a.x, a.x) >= 0,
        fp_mul_s(a.y, a.y) >= 0,
        fp_mul_s(a.z, a.z) >= 0,
{
    assert(a.x * a.x >= 0 && a.y * a.y >= 0 && a.z * a.z >= 0) by (nonlinear_arith);
    lemma_tdiv_mag(a.x * a.x, SCALE as int, a.x * a.x);
    lemma_tdiv_mag(a.y * a.y, SCALE as int, a.y * a.y);
    lemma_tdiv_mag(a.z * a.z, SCALE as int, a.z * a.z);
}

impl Vec3 {
    /// Build a vector from its three fixed-point components.
    pub fn from(x: i64, y: i64, z: i64) -> (r: Vec3)
        ensures
            r@ == v3(x as int, y as int, z as int),
    {
        Vec3 { x, y, z }
    }

    pub fn x(self) -> (r: i64)
        ensures
            r == self@.x,
    {
        self.x
    }

    pub fn y(self) -> (r: i64)
        ensures
            r == self@.y,
    {
        self.y
    }

    pub fn z(self) -> (r: i64)
        ensures
            r == self@.z,
    {
        self.z
    }

    pub fn neg(self) -> (r: Vec3)
        requires
            v3_fits(v3_neg(self@)),
        ensures
            r@ == v3_neg(self@),
    {
        Vec3 { x: -self.x, y: -self.y, z: -self.z }
    }

    pub fn add(self, o: Vec3) -> (r: Vec3)
        requires
            v3_fits(v3_add(self@, o@)),
        ensures
            r@ == v3_add(self@, o@),
    {
        Vec3 { x: self.x + o.x, y: self.y + o.y, z: self.z + o.z }
    }

    pub fn sub(self, o: Vec3) -> (r: Vec3)
        requires
            v3_fits(v3_sub(self@, o@)),
        ensures
            r@ == v3_sub(self@, o@),
    {
        Vec3 { x: self.x - o.x, y: self.y - o.y, z: self.z - o.z }
    }

    /// Componentwise fixed-point product (used for color attenuation).
    pub fn mul(self, o: Vec3) -> (r: Vec3)
        requires
            v3_fits(v3_mul(self@, o@)),
        ensures
            r@ == v3_mul(self@, o@),
    {
        Vec3 {
            x: fp_mul(self.x, o.x),
            y: fp_mul(self.y, o.y),
            z: fp_mul(self.z, o.z),
        }
    }

    /// Scalar times vector.
    pub fn scale(self, k: i64) -> (r: Vec3)
        requires
            v3_fits(v3_scale(k as int, self@)),
        ensures
            r@ == v3_scale(k as int, self@),
    {
        Vec3 {
            x: fp_mul(k, self.x),
            y: fp_mul(k, self.y),
            z: fp_mul(k, self.z),
        }
    }

    /// Vector divided by a positive scalar.
    pub fn scale_div(self, k: i64) -> (r: Vec3)
        requires
            k > 0,
            v3_fits(v3_scale_div(self@, k as int)),
        ensures
            r@ == v3_scale_div(self@, k as int),
    {
        Vec3 {
            x: fp_div(self.x, k),
            y: fp_div(self.y, k),
            z: fp_div(self.z, k),
        }
    }

    pub fn dot(self, o: Vec3) -> (r: i64)
        requires
            dot_ok(self@, o@),
        ensures
            r == v3_dot(self@, o@),
    {
        fp_mul(self.x, o.x) + fp_mul(self.y, o.y) + fp_mul(self.z, o.z)
    }

    pub fn cross(self, o: Vec3) -> (r: Vec3)
        requires
            cross_ok(self@, o@),
        ensures
            r@ == v3_cross(self@, o@),
    {
        Vec3 {
            x: fp_mul(self.y, o.z) - fp_mul(self.z, o.y),
            y: fp_mul(self.z, o.x) - fp_mul(self.x, o.z),
            z: fp_mul(self.x, o.y) - fp_mul(self.y, o.x),
        }
    }

    pub fn squared_norm(self) -> (r: i64)
        requires
            dot_ok(self@, self@),
        ensures
            r == v3_snorm(self@),
            r >= 0,
    {
        proof {
            lemma_snorm_nonneg(self@);
        }
        self.dot(self)
    }

    pub fn norm(self) -> (r: i64)
        requires
            dot_ok(self@, self@),
        ensures
            r == v3_norm(self@),
            r >= 0,
    {
        let s = self.squared_norm();
        fp_sqrt(s)
    }

    pub fn squared_dist(self, o: Vec3) -> (r: i64)
        requires
            v3_fits(v3_sub(self@, o@)),
            dot_ok(v3_sub(self@, o@), v3_sub(self@, o@)),
        ensures
            r == v3_sdist(self@, o@),
            r >= 0,
    {
        let d = self.sub(o);
        d.squared_norm()
    }

    pub fn dist(self, o: Vec3) -> (r: i64)
        requires
            v3_fits(v3_sub(self@, o@)),
            dot_ok(v3_sub(self@, o@), v3_sub(self@, o@)),
        ensures
            r == v3_dist(self@, o@),
            r >= 0,
    {
        let s = self.squared_dist(o);
        fp_sqrt(s)
    }

    /// Divide by the own norm; the caller must rule out the zero norm.
    pub fn normalized(self) -> (r: Vec3)
        requires
            dot_ok(self@, self@),
            v3_norm(self@) > 0,
            v3_fits(v3_scale_div(self@, v3_norm(self@))),
        ensures
            r@ == v3_normalized(self@),
    {
        let n = self.norm();
        self.scale_div(n)
    }

    /// True when every raw component lies below the small positive
    /// threshold (see `v3_near_zero`).
    pub fn near_zero(&self) -> (r: bool)
        ensures
            r == v3_near_zero(self@),
    {
        self.x < NEAR_ZERO_EPS && self.y < NEAR_ZERO_EPS && self.z < NEAR_ZERO_EPS
    }

    /// Reflect `self` in the plane with normal `n`.
    pub fn reflect(self, n: Vec3) -> (r: Vec3)
        requires
            dot_ok(self@, n@),
            fits(2 * v3_dot(self@, n@)),
            v3_fits(v3_scale(2 * v3_dot(self@, n@), n@)),
            v3_fits(v3_reflect(self@, n@)),
        ensures
            r@ == v3_reflect(self@, n@),
    {
        let d = self.dot(n);
        let s = n.scale(2 * d);
        self.sub(s)
    }

    /// True when every component lies within `[-m, m]`.
    pub fn within(&self, m: i64) -> (r: bool)
        requires
            m >= 0,
        ensures
            r == bounded(self@, m as int),
    {
        -m <= self.x && self.x <= m && -m <= self.y && self.y <= m && -m <= self.z && self.z <= m
    }

    pub fn r(self) -> (r: i64)
        ensures
            r == self@.x,
    {
        self.x
    }

    pub fn g(self) -> (r: i64)
        ensures
            r == self@.y,
    {
        self.y
    }

    pub fn b(self) -> (r: i64)
        ensures
            r == self@.z,
    {
        self.z
    }
}

/// Clamp ceiling just below one: a gamma-corrected channel clamped to
/// this value scales to at most 255.
pub const CLAMP_MAX: i64 = 65470;

pub open spec fn clamp_s(x: int, min: int, max: int) -> int {
    if x < min {
        min
    } else if x > max {
        max
    } else {
        x
    }
}

/// The byte value of one color channel: average over the sample
/// count, gamma-correct by square root, clamp, scale to a byte.  A
/// negative averaged channel encodes as zero.
pub open spec fn channel_byte_s(c: int, n: int) -> int
    recommends
        n > 0,
{
    let scaled = tdiv(c, n);
    if scaled < 0 {
        0
    } else {
        tdiv(256 * clamp_s(fp_sqrt_s(scaled), 0, CLAMP_MAX as int), SCALE as int)
    }
}

impl Vec3 {
    /// Clamp a scalar into `[min, max]`.
    pub fn clamp(x: i64, min: i64, max: i64) -> (r: i64)
        ensures
            r == clamp_s(x as int, min as int, max as int),
    {
        if x < min {
            return min;
        }
        if x > max {
            return max;
        }
        x
    }

    /// Encode this accumulated color as gamma-corrected bytes, given
    /// the number of samples that were summed into it.
    pub fn to_bytes(self, samples_per_pixel: u32) -> (r: (u8, u8, u8))
        requires
            samples_per_pixel >= 1,
        ensures
            r.0 == channel_byte_s(self@.x, samples_per_pixel as int),
            r.1 == channel_byte_s(self@.y, samples_per_pixel as int),
            r.2 == channel_byte_s(self@.z, samples_per_pixel as int),
    {
        let r = channel_byte(self.x, samples_per_pixel);
        let g = channel_byte(self.y, samples_per_pixel);
        let b = channel_byte(self.z, samples_per_pixel);
        (r, g, b)
    }
}

/// One channel of `to_bytes`.
fn channel_byte(c: i64, n: u32) -> (r: u8)
    requires
        n >= 1,
    ensures
        r == channel_byte_s(c as int, n as int),
{
    proof {
        crate::fixed::lemma_tdiv_mag(c as int, n as int, 0x8000_0000_0000_0000);
    }
    let scaled128: i128 = crate::fixed::tdiv_i128(c as i128, n as i128);
    let scaled: i64 = scaled128 as i64;
    if scaled < 0 {
        return 0;
    }
    let g = crate::fixed::fp_sqrt(scaled);
    let cl = Vec3::clamp(g, 0, CLAMP_MAX);
    let num: i64 = 256 * cl;
    proof {
        crate::fixed::lemma_tdiv_mag(num as int, SCALE as int, num as int);
        lemma_tdiv_mono(num as int, 256 * CLAMP_MAX as int, SCALE as int);
        assert(tdiv(256 * CLAMP_MAX as int, SCALE as int) == 255);
    }
    let b128: i128 = crate::fixed::tdiv_i128(num as i128, SCALE as i128);
    b128 as u8
}

} // verus!
