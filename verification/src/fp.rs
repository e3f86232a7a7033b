//! Fixed-point scalar arithmetic.
//!
//! A scalar is an `i64` holding a real value scaled by `ONE`; all
//! operations round toward zero. The spec functions `fmul`, `fdiv` and
//! `fsqrt` give the exact integer value of each operation, and every
//! executable function here is proved to return exactly that value.

use vstd::prelude::*;
use vstd::arithmetic::div_mod::{lemma_div_is_ordered, lemma_div_pos_is_pos, lemma_div_by_multiple};

verus! {

/// 1.0 in the fixed-point representation; every scalar is scaled by this.
pub const ONE: i64 = 65536;

/// Bound on model-space (mesh) coordinates.
pub const MODEL_MAX: i64 = 0x400_0000;

/// Bound on the linear (rotation/scale) entries of a transform.
pub const LIN_MAX: i64 = 0x4_0000;

/// Bound on world-space coordinates: transformed vertices, lights, sphere centers.
pub const WORLD_MAX: i64 = 0x1_0000_0000;

/// Bound on a stored (possibly non-unit) vertex normal.
pub const NORM_MAX: i64 = 0x10_0000;

/// Bound on a normalized direction (2.0; normalization clamps to this band).
pub const DIR_MAX: i64 = 0x2_0000;

/// Bound on a ray origin.
pub const RAY_MAX: i64 = 0x2_0000_0000;

/// Largest hit parameter a triangle reports; beyond it counts as no hit.
pub const T_MAX: i64 = 0x2_0000_0000;

/// Bound on any point produced by walking a ray up to `T_MAX`.
pub const POS_MAX: i64 = 0x8_0000_0000;

/// Barycentric weights are clamped to `[-WEIGHT_MAX, WEIGHT_MAX]` (±2.0).
pub const WEIGHT_MAX: i64 = 0x2_0000;

/// Shadow-ray origin offset along the surface normal (≈0.005).
pub const BIAS: i64 = 328;

/// Reflected-ray origin offset along the reflected direction (≈0.05).
pub const REFL_BIAS: i64 = 3277;

pub open spec fn fp_abs(a: int) -> int {
    if a < 0 {
        -a
    } else {
        a
    }
}

/// Truncating (round-toward-zero) signed division; division by zero gives 0.
pub open spec fn sdiv(a: int, b: int) -> int {
    if b == 0 {
        0
    } else if (a < 0) == (b < 0) {
        fp_abs(a) / fp_abs(b)
    } else {
        -(fp_abs(a) / fp_abs(b))
    }
}

/// Fixed-point product: the real product, scaled back by `ONE`, truncated.
pub open spec fn fmul(a: int, b: int) -> int {
    sdiv(a * b, ONE as int)
}

/// Fixed-point quotient: the real quotient, scaled by `ONE`, truncated.
pub open spec fn fdiv(a: int, b: int) -> int {
    sdiv(a * (ONE as int), b)
}

/// Integer square root: the largest `r` with `r * r <= n` (0 for `n < 0`).
pub open spec fn isqrt(n: int) -> int
    decreases n,
{
    if n < 1 {
        0
    } else if (isqrt(n - 1) + 1) * (isqrt(n - 1) + 1) <= n {
        isqrt(n - 1) + 1
    } else {
        isqrt(n - 1)
    }
}

/// Fixed-point square root of a scalar (0 for negative input).
pub open spec fn fsqrt(a: int) -> int {
    if a <= 0 {
        0
    } else {
        isqrt(a * (ONE as int))
    }
}

pub open spec fn clamp_s(v: int, b: int) -> int {
    if v > b {
        b
    } else if v < -b {
        -b
    } else {
        v
    }
}

pub proof fn lemma_isqrt_props(n: int)
    requires
        n >= 0,
    ensures
        0 <= isqrt(n),
        isqrt(n) * isqrt(n) <= n,
        n < (isqrt(n) + 1) * (isqrt(n) + 1),
    decreases n,
{
    if n == 0 {
        assert(isqrt(0) == 0);
    } else {
        lemma_isqrt_props(n - 1);
        let r = isqrt(n - 1);
        if (r + 1) * (r + 1) <= n {
            assert(n <= (r + 1) * (r + 1));
            assert((r + 2) * (r + 2) > (r + 1) * (r + 1)) by (nonlinear_arith)
                requires r >= 0;
        }
    }
}

pub proof fn lemma_isqrt_unique(n: int, r: int)
    requires
        n >= 0,
        r >= 0,
        r * r <= n,
        n < (r + 1) * (r + 1),
    ensures
        r == isqrt(n),
{
    lemma_isqrt_props(n);
    let q = isqrt(n);
    if r < q {
        assert((r + 1) * (r + 1) <= q * q) by (nonlinear_arith)
            requires 0 <= r, r < q;
    }
    if q < r {
        assert((q + 1) * (q + 1) <= r * r) by (nonlinear_arith)
            requires 0 <= q, q < r;
    }
}

pub proof fn lemma_abs_mul(a: int, b: int)
    ensures
        fp_abs(a * b) == fp_abs(a) * fp_abs(b),
{
    if a >= 0 && b >= 0 {
        assert(a * b >= 0) by (nonlinear_arith)
            requires a >= 0, b >= 0;
    } else if a < 0 && b < 0 {
        assert(a * b >= 0 && (-a) * (-b) == a * b) by (nonlinear_arith)
            requires a < 0, b < 0;
    } else if a < 0 {
        assert(a * b <= 0 && (-a) * b == -(a * b)) by (nonlinear_arith)
            requires a < 0, b >= 0;
    } else {
        assert(a * b <= 0 && a * (-b) == -(a * b)) by (nonlinear_arith)
            requires a >= 0, b < 0;
    }
}

/// The magnitude of a truncating quotient is the quotient of magnitudes.
pub proof fn lemma_sdiv_bound(a: int, b: int, c: int)
    requires
        b > 0,
        0 <= c,
        fp_abs(a) <= c,
    ensures
        fp_abs(sdiv(a, b)) <= c / b,
        fp_abs(sdiv(a, b)) == fp_abs(a) / b,
{
    lemma_div_pos_is_pos(fp_abs(a), b);
    lemma_div_is_ordered(fp_abs(a), c, b);
}

/// Magnitude bound for a fixed-point product from bounds on its factors.
pub proof fn lemma_fmul_bound(a: int, b: int, ba: int, bb: int)
    requires
        fp_abs(a) <= ba,
        fp_abs(b) <= bb,
        0 <= ba,
        0 <= bb,
    ensures
        fp_abs(fmul(a, b)) <= (ba * bb) / (ONE as int),
{
    lemma_abs_mul(a, b);
    assert(fp_abs(a) * fp_abs(b) <= ba * bb) by (nonlinear_arith)
        requires 0 <= fp_abs(a) <= ba, 0 <= fp_abs(b) <= bb;
    lemma_sdiv_bound(a * b, ONE as int, ba * bb);
}

/// A product of nonnegative scalars is nonnegative.
pub proof fn lemma_fmul_nonneg(a: int, b: int)
    requires
        a >= 0,
        b >= 0,
    ensures
        fmul(a, b) >= 0,
{
    assert(a * b >= 0) by (nonlinear_arith)
        requires a >= 0, b >= 0;
    lemma_div_pos_is_pos(fp_abs(a * b), ONE as int);
}

pub proof fn lemma_fmul_square_nonneg(a: int)
    ensures
        fmul(a, a) >= 0,
{
    assert(a * a >= 0) by (nonlinear_arith);
    lemma_div_pos_is_pos(fp_abs(a * a), ONE as int);
}

/// Multiplying by 1.0 is exact.
pub proof fn lemma_fmul_one(a: int)
    ensures
        fmul(ONE as int, a) == a,
        fmul(a, ONE as int) == a,
{
    lemma_abs_mul(a, ONE as int);
    lemma_div_by_multiple(fp_abs(a), ONE as int);
    assert(fp_abs(a) * (ONE as int) / (ONE as int) == fp_abs(a));
    assert(a * (ONE as int) == (ONE as int) * a) by (nonlinear_arith);
}

pub proof fn lemma_fmul_zero(a: int)
    ensures
        fmul(0, a) == 0,
        fmul(a, 0) == 0,
{
    assert(0 * a == 0) by (nonlinear_arith);
    assert(a * 0 == 0) by (nonlinear_arith);
    assert(fp_abs(0) / (ONE as int) == 0);
}

pub proof fn lemma_fdiv_zero(d: int)
    ensures
        fdiv(0, d) == 0,
{
    if d != 0 {
        vstd::arithmetic::div_mod::lemma_div_of0(fp_abs(d));
    }
}

/// Dividing a nonzero scalar by itself gives exactly 1.0.
pub proof fn lemma_fdiv_self(d: int)
    requires
        d != 0,
    ensures
        fdiv(d, d) == ONE as int,
{
    lemma_abs_mul(d, ONE as int);
    assert(fp_abs(d) * (ONE as int) == (ONE as int) * fp_abs(d)) by (nonlinear_arith);
    lemma_div_by_multiple(ONE as int, fp_abs(d));
    assert((d * (ONE as int) < 0) == (d < 0)) by (nonlinear_arith)
        requires d != 0;
}

/// Dividing by 1.0 is exact.
pub proof fn lemma_fdiv_one(a: int)
    ensures
        fdiv(a, ONE as int) == a,
{
    lemma_abs_mul(a, ONE as int);
    lemma_div_by_multiple(fp_abs(a), ONE as int);
}

/// Magnitude bound for a fixed-point quotient with a nonzero divisor.
pub proof fn lemma_fdiv_bound(a: int, b: int, c: int)
    requires
        b != 0,
        0 <= c,
        fp_abs(a) <= c,
    ensures
        fp_abs(fdiv(a, b)) <= c * (ONE as int),
{
    lemma_abs_mul(a, ONE as int);
    assert(fp_abs(a) * (ONE as int) <= c * (ONE as int)) by (nonlinear_arith)
        requires 0 <= fp_abs(a) <= c;
    lemma_div_pos_is_pos(fp_abs(a * (ONE as int)), fp_abs(b));
    lemma_div_is_ordered(fp_abs(a * (ONE as int)), c * (ONE as int), fp_abs(b));
    vstd::arithmetic::div_mod::lemma_div_nonincreasing(c * (ONE as int), fp_abs(b));
}

/// Upper bound for a fixed-point square root.
pub proof fn lemma_fsqrt_le(a: int, k: int)
    requires
        k >= 0,
        a * (ONE as int) < (k + 1) * (k + 1),
    ensures
        fsqrt(a) <= k,
{
    if a > 0 {
        lemma_isqrt_props(a * (ONE as int));
        let r = isqrt(a * (ONE as int));
        if r > k {
            assert((k + 1) * (k + 1) <= r * r) by (nonlinear_arith)
                requires 0 <= k, k < r;
        }
    }
}

fn abs_i128(a: i128) -> (r: u128)
    requires
        a != i128::MIN,
    ensures
        r as int == fp_abs(a as int),
{
    if a < 0 {
        (-a) as u128
    } else {
        a as u128
    }
}

proof fn lemma_i64_product_fits(a: int, b: int)
    requires
        fp_abs(a) <= 0x8000_0000_0000_0000,
        fp_abs(b) <= 0x8000_0000_0000_0000,
    ensures
        fp_abs(a * b) <= 0x4000_0000_0000_0000_0000_0000_0000_0000,
{
    lemma_abs_mul(a, b);
    assert(fp_abs(a) * fp_abs(b) <= 0x8000_0000_0000_0000 * 0x8000_0000_0000_0000)
        by (nonlinear_arith)
        requires 0 <= fp_abs(a) <= 0x8000_0000_0000_0000, 0 <= fp_abs(b) <= 0x8000_0000_0000_0000;
}

/// Exact fixed-point product of two scalars, kept wide.
pub(crate) fn mul_wide(a: i64, b: i64) -> (r: i128)
    ensures
        r as int == fmul(a as int, b as int),
{
    proof {
        lemma_i64_product_fits(a as int, b as int);
    }
    let p: i128 = (a as i128) * (b as i128);
    let pm: u128 = if p < 0 {
        (-p) as u128
    } else {
        p as u128
    };
    let q: u128 = pm / 65536;
    let qi: i128 = q as i128;
    if p < 0 {
        -qi
    } else {
        qi
    }
}

/// Exact fixed-point quotient of wide scalars; division by zero gives 0.
pub(crate) fn div_wide(n: i128, d: i128) -> (r: i128)
    requires
        fp_abs(n as int) <= 0x1_0000_0000_0000_0000_0000_0000,
        fp_abs(d as int) <= 0x1_0000_0000_0000_0000_0000_0000,
    ensures
        r as int == fdiv(n as int, d as int),
{
    if d == 0 {
        return 0;
    }
    if n == 0 {
        proof {
            vstd::arithmetic::div_mod::lemma_div_of0(fp_abs(d as int));
            assert(0int * (ONE as int) == 0) by (nonlinear_arith);
        }
        return 0;
    }
    proof {
        lemma_abs_mul(n as int, ONE as int);
        assert(((n as int) * (ONE as int) < 0) == ((n as int) < 0)) by (nonlinear_arith)
            requires n as int != 0;
    }
    let neg: bool = (n < 0) != (d < 0);
    let nm: u128 = abs_i128(n);
    let dm: u128 = abs_i128(d);
    let q: u128 = (nm * 65536) / dm;
    proof {
        let wide = fp_abs(n as int) * (ONE as int);
        lemma_div_pos_is_pos(wide, dm as int);
        vstd::arithmetic::div_mod::lemma_div_nonincreasing(wide, dm as int);
        vstd::arithmetic::mul::lemma_mul_inequality(
            fp_abs(n as int),
            0x1_0000_0000_0000_0000_0000_0000,
            ONE as int,
        );
    }
    let qi: i128 = q as i128;
    if neg {
        -qi
    } else {
        qi
    }
}

/// Exact fixed-point product, narrowed; the caller shows the result fits.
pub fn fp_mul(a: i64, b: i64) -> (r: i64)
    requires
        fp_abs(fmul(a as int, b as int)) <= i64::MAX as int,
    ensures
        r as int == fmul(a as int, b as int),
{
    let w: i128 = mul_wide(a, b);
    w as i64
}

/// Exact fixed-point square root: returns `fsqrt(a)`, the floor of the
/// real square root in the fixed-point representation.
pub fn fp_sqrt(a: i64) -> (r: i64)
    ensures
        r as int == fsqrt(a as int),
        r >= 0,
{
    if a <= 0 {
        return 0;
    }
    let n: u128 = (a as u128) * 65536;
    let s: u128 = sqrt_u128(n);
    proof {
        lemma_isqrt_unique(n as int, s as int);
        if s as int > 0x1_0000_0000_0000 {
            assert((s as int) * (s as int) > 0x1_0000_0000_0000 * 0x1_0000_0000_0000)
                by (nonlinear_arith)
                requires s as int > 0x1_0000_0000_0000;
        }
    }
    s as i64
}

fn sqrt_u128(n: u128) -> (r: u128)
    ensures
        (r as int) * (r as int) <= n as int,
        (n as int) < ((r as int) + 1) * ((r as int) + 1),
        r <= 0x1_0000_0000_0000_0000,
{
    let mut lo: u128 = 0;
    let mut hi: u128 = 0x1_0000_0000_0000_0000;
    proof {
        assert((n as int) < (hi as int) * (hi as int)) by (nonlinear_arith)
            requires n as int <= 0xffff_ffff_ffff_ffff_ffff_ffff_ffff_ffff, hi as int == 0x1_0000_0000_0000_0000;
    }
    while lo + 1 < hi
        invariant
            (lo as int) * (lo as int) <= n as int,
            (n as int) < (hi as int) * (hi as int),
            lo < hi,
            hi <= 0x1_0000_0000_0000_0000,
        decreases hi - lo,
    {
        let mid: u128 = lo + (hi - lo) / 2;
        proof {
            assert((mid as int) * (mid as int) <= 0xffff_ffff_ffff_ffff * 0xffff_ffff_ffff_ffff)
                by (nonlinear_arith)
                requires 0 <= mid as int, mid as int <= 0xffff_ffff_ffff_ffff;
        }
        let sq: u128 = mid * mid;
        if sq <= n {
            lo = mid;
        } else {
            hi = mid;
        }
    }
    lo
}

/// Clamp a wide scalar into the symmetric band `[-b, b]`.
pub(crate) fn clamp_wide(v: i128, b: i64) -> (r: i64)
    requires
        b >= 0,
    ensures
        r as int == clamp_s(v as int, b as int),
{
    if v > b as i128 {
        b
    } else if v < -(b as i128) {
        -b
    } else {
        v as i64
    }
}

} // verus!
