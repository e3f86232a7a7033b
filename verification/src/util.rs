//! Quadratic equations over fixed-point scalars.

use vstd::prelude::*;
use crate::fp::{
    fp_abs, fmul, fdiv, fsqrt, ONE, mul_wide, div_wide, fp_sqrt,
    lemma_fmul_bound, lemma_fdiv_bound, lemma_fsqrt_le,
};

verus! {

/// The solutions of a quadratic equation: none, a double root, or two
/// roots in increasing order of `-b -/+ sqrt(delta)` over `2a`.
#[derive(Clone, Copy, Debug, PartialEq, Eq, Structural)]
pub enum EqSolution {
    Zero,
    One(i64),
    Two(i64, i64),
}

/// Discriminant `b^2 - 4ac` in fixed-point arithmetic.
pub open spec fn quad_delta(a: int, b: int, c: int) -> int {
    fmul(b, b) - 4 * fmul(a, c)
}

pub open spec fn quad_root_single(a: int, b: int) -> int {
    fdiv(-b, 2 * a)
}

pub open spec fn quad_root_low(a: int, b: int, c: int) -> int {
    fdiv(-b - fsqrt(quad_delta(a, b, c)), 2 * a)
}

pub open spec fn quad_root_high(a: int, b: int, c: int) -> int {
    fdiv(-b + fsqrt(quad_delta(a, b, c)), 2 * a)
}

/// Solve `a*x^2 + b*x + c = 0`: no solution for a negative discriminant,
/// the double root for a zero one, both roots otherwise.
pub fn solve_quadratic_equation(a: i64, b: i64, c: i64) -> (r: EqSolution)
    requires
        a != 0,
        fp_abs(a as int) <= 0x4000_0000,
        fp_abs(b as int) <= 0x4000_0000,
        fp_abs(c as int) <= 0x4000_0000,
    ensures
        quad_delta(a as int, b as int, c as int) < 0 ==> r == EqSolution::Zero,
        quad_delta(a as int, b as int, c as int) == 0 ==> r == EqSolution::One(
            quad_root_single(a as int, b as int) as i64,
        ) && fp_abs(quad_root_single(a as int, b as int)) <= 0x4000_0000_0000_0000,
        quad_delta(a as int, b as int, c as int) > 0 ==> r == EqSolution::Two(
            quad_root_low(a as int, b as int, c as int) as i64,
            quad_root_high(a as int, b as int, c as int) as i64,
        ) && fp_abs(quad_root_low(a as int, b as int, c as int)) <= 0x4000_0000_0000_0000
          && fp_abs(quad_root_high(a as int, b as int, c as int)) <= 0x4000_0000_0000_0000,
{
    proof {
        lemma_fmul_bound(b as int, b as int, 0x4000_0000, 0x4000_0000);
        lemma_fmul_bound(a as int, c as int, 0x4000_0000, 0x4000_0000);
    }
    let bb: i128 = mul_wide(b, b);
    let ac: i128 = mul_wide(a, c);
    let delta_w: i128 = bb - 4 * ac;
    let delta: i64 = delta_w as i64;
    if delta < 0 {
        EqSolution::Zero
    } else {
        proof {
            lemma_fsqrt_le(delta as int, 0x1_0000_0000);
        }
        let sd: i64 = fp_sqrt(delta);
        let twoa: i64 = 2 * a;
        if delta == 0 {
            proof {
                lemma_fdiv_bound(-(b as int), twoa as int, 0x4000_0000);
            }
            let root: i128 = div_wide((-b) as i128, twoa as i128);
            EqSolution::One(root as i64)
        } else {
            proof {
                lemma_fdiv_bound(-(b as int) - (sd as int), twoa as int, 0x1_4000_0000);
                lemma_fdiv_bound(-(b as int) + (sd as int), twoa as int, 0x1_4000_0000);
            }
            let low: i128 = div_wide((-b - sd) as i128, twoa as i128);
            let high: i128 = div_wide((-b + sd) as i128, twoa as i128);
            EqSolution::Two(low as i64, high as i64)
        }
    }
}

} // verus!
