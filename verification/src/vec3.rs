//! 3-D vectors and points in fixed-point coordinates.
//!
//! `Vec3` is the executable type; its view `V3` carries unbounded
//! integer components so that specifications can speak about every
//! intermediate value exactly.

use vstd::prelude::*;
use crate::fp::{
    fp_abs, fmul, fdiv, fsqrt, clamp_s, sdiv, ONE, DIR_MAX,
    lemma_fmul_bound, mul_wide, div_wide, clamp_wide, fp_sqrt,
};

verus! {

/// Mathematical view of a 3-vector: unbounded integer components.
pub struct V3 {
    pub x: int,
    pub y: int,
    pub z: int,
}

/// A 3-D vector or point; each component is a fixed-point scalar.
#[derive(Clone, Copy, Debug, PartialEq, Eq, Structural)]
pub struct Vec3 {
    pub x: i64,
    pub y: i64,
    pub z: i64,
}

impl View for Vec3 {
    type V = V3;

    open spec fn view(&self) -> V3 {
        V3 { x: self.x as int, y: self.y as int, z: self.z as int }
    }
}

/// Every component lies in the symmetric band `[-b, b]`.
pub open spec fn in_range(v: V3, b: int) -> bool {
    fp_abs(v.x) <= b && fp_abs(v.y) <= b && fp_abs(v.z) <= b
}

pub open spec fn add_v(a: V3, b: V3) -> V3 {
    V3 { x: a.x + b.x, y: a.y + b.y, z: a.z + b.z }
}

pub open spec fn sub_v(a: V3, b: V3) -> V3 {
    V3 { x: a.x - b.x, y: a.y - b.y, z: a.z - b.z }
}

pub open spec fn scale_v(k: int, v: V3) -> V3 {
    V3 { x: fmul(k, v.x), y: fmul(k, v.y), z: fmul(k, v.z) }
}

pub open spec fn dot_v(a: V3, b: V3) -> int {
    fmul(a.x, b.x) + fmul(a.y, b.y) + fmul(a.z, b.z)
}

pub open spec fn cross_v(a: V3, b: V3) -> V3 {
    V3 {
        x: fmul(a.y, b.z) - fmul(a.z, b.y),
        y: fmul(a.z, b.x) - fmul(a.x, b.z),
        z: fmul(a.x, b.y) - fmul(a.y, b.x),
    }
}

/// Squared distance between two points (in fixed-point arithmetic).
pub open spec fn dist2_v(a: V3, b: V3) -> int {
    dot_v(sub_v(a, b), sub_v(a, b))
}

/// Normalization: divide by the fixed-point length, clamping each
/// component to `[-DIR_MAX, DIR_MAX]`; the zero-length vector maps to zero.
pub open spec fn norm_v(v: V3) -> V3 {
    let len = fsqrt(dot_v(v, v));
    if len == 0 {
        V3 { x: 0, y: 0, z: 0 }
    } else {
        V3 {
            x: clamp_s(fdiv(v.x, len), DIR_MAX as int),
            y: clamp_s(fdiv(v.y, len), DIR_MAX as int),
            z: clamp_s(fdiv(v.z, len), DIR_MAX as int),
        }
    }
}

/// Magnitude bound for a fixed-point dot product from component bounds.
pub proof fn lemma_dot_bound(a: V3, b: V3, ba: int, bb: int)
    requires
        in_range(a, ba),
        in_range(b, bb),
        0 <= ba,
        0 <= bb,
    ensures
        fp_abs(dot_v(a, b)) <= 3 * ((ba * bb) / (ONE as int)),
{
    lemma_fmul_bound(a.x, b.x, ba, bb);
    lemma_fmul_bound(a.y, b.y, ba, bb);
    lemma_fmul_bound(a.z, b.z, ba, bb);
}

/// Component bound for a fixed-point cross product.
pub proof fn lemma_cross_bound(a: V3, b: V3, ba: int, bb: int)
    requires
        in_range(a, ba),
        in_range(b, bb),
        0 <= ba,
        0 <= bb,
    ensures
        in_range(cross_v(a, b), 2 * ((ba * bb) / (ONE as int))),
{
    lemma_fmul_bound(a.y, b.z, ba, bb);
    lemma_fmul_bound(a.z, b.y, ba, bb);
    lemma_fmul_bound(a.z, b.x, ba, bb);
    lemma_fmul_bound(a.x, b.z, ba, bb);
    lemma_fmul_bound(a.x, b.y, ba, bb);
    lemma_fmul_bound(a.y, b.x, ba, bb);
}

/// Component bound for scaling.
pub proof fn lemma_scale_bound(k: int, v: V3, bk: int, bv: int)
    requires
        fp_abs(k) <= bk,
        in_range(v, bv),
        0 <= bk,
        0 <= bv,
    ensures
        in_range(scale_v(k, v), (bk * bv) / (ONE as int)),
{
    lemma_fmul_bound(k, v.x, bk, bv);
    lemma_fmul_bound(k, v.y, bk, bv);
    lemma_fmul_bound(k, v.z, bk, bv);
}

impl Vec3 {
    pub fn new(x: i64, y: i64, z: i64) -> (r: Vec3)
        ensures
            r@ == (V3 { x: x as int, y: y as int, z: z as int }),
    {
        Vec3 { x, y, z }
    }

    pub fn zero() -> (r: Vec3)
        ensures
            r@ == (V3 { x: 0int, y: 0int, z: 0int }),
    {
        Vec3 { x: 0, y: 0, z: 0 }
    }

    pub fn add(self, o: Vec3) -> (r: Vec3)
        requires
            fp_abs(self@.x + o@.x) <= i64::MAX as int,
            fp_abs(self@.y + o@.y) <= i64::MAX as int,
            fp_abs(self@.z + o@.z) <= i64::MAX as int,
        ensures
            r@ == add_v(self@, o@),
    {
        Vec3 { x: self.x + o.x, y: self.y + o.y, z: self.z + o.z }
    }

    pub fn sub(self, o: Vec3) -> (r: Vec3)
        requires
            fp_abs(self@.x - o@.x) <= i64::MAX as int,
            fp_abs(self@.y - o@.y) <= i64::MAX as int,
            fp_abs(self@.z - o@.z) <= i64::MAX as int,
        ensures
            r@ == sub_v(self@, o@),
    {
        Vec3 { x: self.x - o.x, y: self.y - o.y, z: self.z - o.z }
    }

    /// Scale by a fixed-point scalar.
    pub fn scale(self, k: i64) -> (r: Vec3)
        requires
            fp_abs(fmul(k as int, self@.x)) <= i64::MAX as int,
            fp_abs(fmul(k as int, self@.y)) <= i64::MAX as int,
            fp_abs(fmul(k as int, self@.z)) <= i64::MAX as int,
        ensures
            r@ == scale_v(k as int, self@),
    {
        let x: i128 = mul_wide(k, self.x);
        let y: i128 = mul_wide(k, self.y);
        let z: i128 = mul_wide(k, self.z);
        Vec3 { x: x as i64, y: y as i64, z: z as i64 }
    }

    pub fn dot(self, o: Vec3) -> (r: i64)
        requires
            fp_abs(dot_v(self@, o@)) <= i64::MAX as int,
        ensures
            r as int == dot_v(self@, o@),
    {
        let w: i128 = self.dot_wide(o);
        w as i64
    }

    /// Dot product kept wide; exact for all inputs.
    pub fn dot_wide(self, o: Vec3) -> (r: i128)
        ensures
            r as int == dot_v(self@, o@),
    {
        proof {
            lemma_fmul_bound(self@.x, o@.x, 0x8000_0000_0000_0000, 0x8000_0000_0000_0000);
            lemma_fmul_bound(self@.y, o@.y, 0x8000_0000_0000_0000, 0x8000_0000_0000_0000);
            lemma_fmul_bound(self@.z, o@.z, 0x8000_0000_0000_0000, 0x8000_0000_0000_0000);
        }
        mul_wide(self.x, o.x) + mul_wide(self.y, o.y) + mul_wide(self.z, o.z)
    }

    pub fn cross(self, o: Vec3) -> (r: Vec3)
        requires
            in_range(cross_v(self@, o@), i64::MAX as int),
        ensures
            r@ == cross_v(self@, o@),
    {
        let x: i128 = mul_wide(self.y, o.z) - mul_wide(self.z, o.y);
        let y: i128 = mul_wide(self.z, o.x) - mul_wide(self.x, o.z);
        let z: i128 = mul_wide(self.x, o.y) - mul_wide(self.y, o.x);
        Vec3 { x: x as i64, y: y as i64, z: z as i64 }
    }

    /// Normalize to (approximately) unit length; exact per `norm_v`.
    pub fn normalize(self) -> (r: Vec3)
        requires
            in_range(self@, 0x10_0000_0000),
        ensures
            r@ == norm_v(self@),
            in_range(r@, DIR_MAX as int),
    {
        proof {
            lemma_dot_bound(self@, self@, 0x10_0000_0000, 0x10_0000_0000);
        }
        let d: i64 = self.dot(self);
        let len: i64 = fp_sqrt(d);
        if len == 0 {
            Vec3 { x: 0, y: 0, z: 0 }
        } else {
            let x: i64 = clamp_wide(div_wide(self.x as i128, len as i128), DIR_MAX);
            let y: i64 = clamp_wide(div_wide(self.y as i128, len as i128), DIR_MAX);
            let z: i64 = clamp_wide(div_wide(self.z as i128, len as i128), DIR_MAX);
            Vec3 { x, y, z }
        }
    }

    /// Decide whether every component lies within `[-b, b]`.
    pub fn within(self, b: i64) -> (r: bool)
        requires
            b >= 0,
        ensures
            r == in_range(self@, b as int),
    {
        self.x <= b && self.x >= -b && self.y <= b && self.y >= -b && self.z <= b && self.z >= -b
    }

    /// Squared distance to another point.
    pub fn dist2(self, o: Vec3) -> (r: i64)
        requires
            in_range(self@, 0x10_0000_0000),
            in_range(o@, 0x10_0000_0000),
        ensures
            r as int == dist2_v(self@, o@),
    {
        let d: Vec3 = self.sub(o);
        proof {
            lemma_dot_bound(d@, d@, 0x20_0000_0000, 0x20_0000_0000);
        }
        d.dot(d)
    }
}

} // verus!
