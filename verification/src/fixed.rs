//! Signed fixed-point scalar arithmetic.
//!
//! A scalar value `x` stands for the real number `x / SCALE`.  Every
//! executable operation here mirrors an exact integer specification:
//! multiplication and division truncate toward zero (as the hardware
//! does), and the square root is the integer square root of the
//! rescaled operand.

use vstd::prelude::*;

verus! {

/// Fixed-point scale: the representation of the real number one.
pub const SCALE: i64 = 65536;

/// Symmetric range of scalars we compute with (avoids `i64::MIN`,
/// whose negation overflows).
pub open spec fn fits(x: int) -> bool {
    -0x7fff_ffff_ffff_ffff <= x <= 0x7fff_ffff_ffff_ffff
}

/// Truncated (round-toward-zero) division, for a positive divisor.
/// This is the division the machine performs on signed integers.
pub open spec fn tdiv(a: int, b: int) -> int
    recommends
        b > 0,
{
    if a >= 0 {
        a / b
    } else {
        -((-a) / b)
    }
}

/// Fixed-point product: `a * b` rescaled, truncated toward zero.
pub open spec fn fp_mul_s(a: int, b: int) -> int {
    tdiv(a * b, SCALE as int)
}

/// Fixed-point quotient, for a positive divisor.
pub open spec fn fp_div_s(a: int, b: int) -> int
    recommends
        b > 0,
{
    tdiv(a * SCALE, b)
}

/// Truncated division of an `i128` by a positive divisor.
pub fn tdiv_i128(a: i128, b: i128) -> (r: i128)
    requires
        b > 0,
        a > i128::MIN,
    ensures
        r == tdiv(a as int, b as int),
{
    if a >= 0 {
        let q: u128 = (a as u128) / (b as u128);
        q as i128
    } else {
        let q: u128 = ((-a) as u128) / (b as u128);
        proof {
            assert((-a) as u128 == -(a as int));
            assert(q <= (-a) as u128) by (nonlinear_arith)
                requires
                    q == ((-a) as u128) / (b as u128),
                    b as u128 >= 1,
            ;
        }
        -(q as i128)
    }
}

/// Fixed-point multiplication.
pub fn fp_mul(a: i64, b: i64) -> (r: i64)
    requires
        fits(fp_mul_s(a as int, b as int)),
    ensures
        r == fp_mul_s(a as int, b as int),
{
    let p: i128 = (a as i128) * (b as i128);
    proof {
        assert(p > i128::MIN) by (nonlinear_arith)
            requires
                p == (a as i128) * (b as i128),
                -0x8000_0000_0000_0000 <= a <= 0x7fff_ffff_ffff_ffff,
                -0x8000_0000_0000_0000 <= b <= 0x7fff_ffff_ffff_ffff,
        ;
    }
    let q: i128 = tdiv_i128(p, SCALE as i128);
    q as i64
}

/// Fixed-point division by a positive divisor.
pub fn fp_div(a: i64, b: i64) -> (r: i64)
    requires
        b > 0,
        fits(fp_div_s(a as int, b as int)),
    ensures
        r == fp_div_s(a as int, b as int),
{
    let p: i128 = (a as i128) * (SCALE as i128);
    let q: i128 = tdiv_i128(p, b as i128);
    q as i64
}

/// Integer square root (largest `r` with `r * r <= n`), as a recursive
/// specification.
pub open spec fn isqrt_s(n: nat) -> nat
    decreases n,
{
    if n == 0 {
        0
    } else {
        let r = isqrt_s((n - 1) as nat);
        if (r + 1) * (r + 1) <= n {
            r + 1
        } else {
            r
        }
    }
}

/// `isqrt_s(n)` is characterized by `r * r <= n < (r + 1) * (r + 1)`.
pub proof fn lemma_isqrt_bounds(n: nat)
    ensures
        isqrt_s(n) * isqrt_s(n) <= n,
        n < (isqrt_s(n) + 1) * (isqrt_s(n) + 1),
    decreases n,
{
    if n == 0 {
        let s = isqrt_s(n);
        assert(s == 0);
        assert(s * s <= n && n < (s + 1) * (s + 1)) by (nonlinear_arith)
            requires
                s == 0,
                n == 0,
        ;
    } else {
        lemma_isqrt_bounds((n - 1) as nat);
        let r = isqrt_s((n - 1) as nat);
        let s = isqrt_s(n);
        if (r + 1) * (r + 1) <= n {
            assert(s == r + 1);
            assert(n < (r + 2) * (r + 2)) by (nonlinear_arith)
                requires
                    n - 1 < (r + 1) * (r + 1),
                    r >= 0,
            ;
            assert(s * s <= n && n < (s + 1) * (s + 1)) by (nonlinear_arith)
                requires
                    s == r + 1,
                    (r + 1) * (r + 1) <= n,
                    n < (r + 2) * (r + 2),
            ;
        } else {
            assert(s == r);
            assert(s * s <= n && n < (s + 1) * (s + 1)) by (nonlinear_arith)
                requires
                    s == r,
                    r * r <= n - 1,
                    !((r + 1) * (r + 1) <= n),
            ;
        }
    }
}

/// The characterization determines the root uniquely.
pub proof fn lemma_isqrt_unique(n: nat, r: nat)
    requires
        r * r <= n,
        n < (r + 1) * (r + 1),
    ensures
        r == isqrt_s(n),
{
    lemma_isqrt_bounds(n);
    let s = isqrt_s(n);
    assert(r == s) by (nonlinear_arith)
        requires
            r * r <= n < (r + 1) * (r + 1),
            s * s <= n < (s + 1) * (s + 1),
            r >= 0,
            s >= 0,
    ;
}

/// Executable integer square root by bisection.
pub fn isqrt(n: u128) -> (r: u128)
    requires
        n < 0x4000_0000_0000_0000_0000_0000_0000_0000,
    ensures
        r == isqrt_s(n as nat),
        r < 0x8000_0000_0000_0000,
{
    let mut lo: u128 = 0;
    let mut hi: u128 = 0x8000_0000_0000_0000;
    proof {
        assert(hi * hi == 0x4000_0000_0000_0000_0000_0000_0000_0000) by (nonlinear_arith)
            requires
                hi == 0x8000_0000_0000_0000u128,
        ;
    }
    while lo + 1 < hi
        invariant
            lo < hi <= 0x8000_0000_0000_0000,
            lo * lo <= n,
            n < hi * hi,
        decreases hi - lo,
    {
        let mid: u128 = lo + (hi - lo) / 2;
        proof {
            assert(mid * mid < 0x8000_0000_0000_0000_0000_0000_0000_0000u128) by (nonlinear_arith)
                requires
                    mid < 0x8000_0000_0000_0000u128,
            ;
        }
        if mid * mid <= n {
            lo = mid;
        } else {
            hi = mid;
        }
    }
    proof {
        lemma_isqrt_unique(n as nat, lo as nat);
    }
    lo
}

/// Fixed-point square root of a nonnegative scalar.
pub open spec fn fp_sqrt_s(a: int) -> int
    recommends
        a >= 0,
{
    isqrt_s((a * SCALE) as nat) as int
}

/// Executable fixed-point square root.
pub fn fp_sqrt(a: i64) -> (r: i64)
    requires
        a >= 0,
    ensures
        r == fp_sqrt_s(a as int),
        0 <= r,
        r * r <= a * SCALE < (r + 1) * (r + 1),
{
    proof {
        assert((a as u128) * (SCALE as u128) <= 0x7fff_ffff_ffff_ffff * 65536)
            by (nonlinear_arith)
            requires
                0 <= a as u128 <= 0x7fff_ffff_ffff_ffffu128,
                SCALE as u128 == 65536,
        ;
    }
    let n: u128 = (a as u128) * (SCALE as u128);
    let r: u128 = isqrt(n);
    proof {
        lemma_isqrt_bounds(n as nat);
        assert(r as nat * (r as nat) <= n as nat);
        assert(r < 0x1_0000_0000_0000u128) by (nonlinear_arith)
            requires
                r as nat * (r as nat) <= n as nat,
                n as nat <= 0x7fff_ffff_ffff_ffff * 65536,
        ;
    }
    r as i64
}

/// Negating the dividend negates a truncated quotient.
pub proof fn lemma_tdiv_neg(a: int, b: int)
    requires
        b > 0,
    ensures
        tdiv(-a, b) == -tdiv(a, b),
{
    if a == 0 {
    } else if a > 0 {
        vstd::arithmetic::div_mod::lemma_div_pos_is_pos(a, b);
    } else {
        vstd::arithmetic::div_mod::lemma_div_pos_is_pos(-a, b);
    }
}

/// A truncated quotient is no larger in magnitude than its dividend.
pub proof fn lemma_tdiv_mag(a: int, b: int, m: int)
    requires
        b > 0,
        -m <= a <= m,
    ensures
        -m <= tdiv(a, b) <= m,
        a >= 0 ==> 0 <= tdiv(a, b) <= a,
        a <= 0 ==> a <= tdiv(a, b) <= 0,
{
    if a >= 0 {
        assert(0 <= a / b <= a) by (nonlinear_arith)
            requires
                a >= 0,
                b >= 1,
        ;
    } else {
        assert(0 <= (-a) / b <= -a) by (nonlinear_arith)
            requires
                -a >= 0,
                b >= 1,
        ;
    }
}

/// Truncated division is monotone in the dividend.
pub proof fn lemma_tdiv_mono(a1: int, a2: int, b: int)
    requires
        b > 0,
        a1 <= a2,
    ensures
        tdiv(a1, b) <= tdiv(a2, b),
{
    if a1 >= 0 {
        vstd::arithmetic::div_mod::lemma_div_is_ordered(a1, a2, b);
    } else if a2 <= 0 {
        vstd::arithmetic::div_mod::lemma_div_is_ordered(-a2, -a1, b);
    } else {
        lemma_tdiv_mag(a1, b, -a1);
        lemma_tdiv_mag(a2, b, a2);
    }
}

/// Exact case: dividing a multiple of the divisor.
pub proof fn lemma_tdiv_exact(k: int, b: int)
    requires
        b > 0,
    ensures
        tdiv(k * b, b) == k,
{
    if k >= 0 {
        assert((k * b) / b == k) by (nonlinear_arith)
            requires
                b > 0,
                k >= 0,
        ;
    } else {
        assert(((-k) * b) / b == -k) by (nonlinear_arith)
            requires
                b > 0,
                k <= 0,
        ;
        assert(-(k * b) == (-k) * b) by (nonlinear_arith);
        lemma_tdiv_neg(-(k * b), b);
    }
}

/// The error of a truncated quotient is below one unit:
/// `a - b < tdiv(a, b) * b <= a` for nonnegative `a`, and symmetrically
/// for negative `a`.
pub proof fn lemma_tdiv_error(a: int, b: int)
    requires
        b > 0,
    ensures
        a >= 0 ==> a - b < tdiv(a, b) * b <= a,
        a <= 0 ==> a <= tdiv(a, b) * b < a + b,
{
    if a >= 0 {
        vstd::arithmetic::div_mod::lemma_fundamental_div_mod(a, b);
        vstd::arithmetic::div_mod::lemma_mod_bound(a, b);
        assert(tdiv(a, b) * b == a - a % b) by (nonlinear_arith)
            requires
                a == b * (a / b) + a % b,
                tdiv(a, b) == a / b,
        ;
    } else {
        vstd::arithmetic::div_mod::lemma_fundamental_div_mod(-a, b);
        vstd::arithmetic::div_mod::lemma_mod_bound(-a, b);
        assert(tdiv(a, b) * b == a + (-a) % b) by (nonlinear_arith)
            requires
                -a == b * ((-a) / b) + (-a) % b,
                tdiv(a, b) == -((-a) / b),
        ;
    }
}

/// A truncated quotient bound through a lower bound on the divisor:
/// if `|a| <= m <= bmin * q` and `b >= bmin`, then `|tdiv(a, b)| <= q`.
pub proof fn lemma_tdiv_quot_bound(a: int, b: int, m: int, bmin: int, q: int)
    requires
        b >= bmin >= 1,
        -m <= a <= m,
        bmin * q >= m,
        q >= 0,
    ensures
        -q <= tdiv(a, b) <= q,
{
    assert(m <= b * q) by (nonlinear_arith)
        requires
            b >= bmin >= 1,
            bmin * q >= m,
            q >= 0,
    ;
    if a >= 0 {
        assert(a / b <= q) by (nonlinear_arith)
            requires
                0 <= a,
                a <= b * q,
                b >= 1,
                q >= 0,
        ;
        assert(a / b >= 0) by (nonlinear_arith)
            requires
                0 <= a,
                b >= 1,
        ;
    } else {
        assert((-a) / b <= q) by (nonlinear_arith)
            requires
                0 <= -a,
                -a <= b * q,
                b >= 1,
                q >= 0,
        ;
        assert((-a) / b >= 0) by (nonlinear_arith)
            requires
                0 <= -a,
                b >= 1,
        ;
    }
}


/// A product of two scalars from the unit interval stays in the unit
/// interval.
pub proof fn lemma_fp_mul_unit(a: int, b: int)
    requires
        0 <= a <= SCALE,
        0 <= b <= SCALE,
    ensures
        0 <= fp_mul_s(a, b) <= SCALE,
        fp_mul_s(a, b) <= a,
        fp_mul_s(a, b) <= b,
{
    assert(0 <= a * b <= SCALE as int * SCALE as int && a * b <= a * SCALE && a * b <= b * SCALE)
        by (nonlinear_arith)
        requires
            0 <= a <= SCALE,
            0 <= b <= SCALE,
    ;
    lemma_tdiv_mono(a * b, a * SCALE as int, SCALE as int);
    lemma_tdiv_mono(a * b, b * SCALE as int, SCALE as int);
    lemma_tdiv_exact(a, SCALE as int);
    lemma_tdiv_exact(b, SCALE as int);
    lemma_tdiv_mag(a * b, SCALE as int, a * b);
}

} // verus!
