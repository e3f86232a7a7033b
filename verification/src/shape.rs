//! Shape primitives: spheres and triangles.
//!
//! Both implement `Shape`: a closest-hit parametric distance along a
//! ray and a (normalized) surface normal at a point. All branch
//! decisions of the classic geometric sphere test and of the
//! Moller-Trumbore triangle test are taken exactly: barycentric range
//! checks compare numerators against the determinant instead of
//! dividing first, so only the returned quantities are rounded.

use vstd::prelude::*;
use crate::fp::{
    fp_abs, fmul, fdiv, fsqrt, clamp_s, ONE, WORLD_MAX, NORM_MAX, DIR_MAX, POS_MAX, T_MAX,
    WEIGHT_MAX, mul_wide, div_wide, clamp_wide, fp_mul, fp_sqrt,
    lemma_fmul_bound, lemma_fmul_square_nonneg, lemma_fmul_one, lemma_fmul_zero,
    lemma_fdiv_self, lemma_isqrt_props,
};
use crate::vec3::{
    Vec3, V3, in_range, add_v, sub_v, scale_v, dot_v, cross_v, norm_v,
    lemma_dot_bound, lemma_cross_bound, lemma_scale_bound,
};
use crate::types::{Ray, RayV};

verus! {

/// A mesh vertex: position and (possibly non-unit) normal.
#[derive(Clone, Copy, Debug, PartialEq, Eq, Structural)]
pub struct Vertex {
    pub position: Vec3,
    pub normal: Vec3,
}

pub open spec fn vertex_wf(v: Vertex) -> bool {
    in_range(v.position@, WORLD_MAX as int) && in_range(v.normal@, NORM_MAX as int)
}

/// An axis-aligned bounding box.
#[derive(Clone, Copy, Debug, PartialEq, Eq, Structural)]
pub struct AABB {
    pub min: Vec3,
    pub max: Vec3,
}

/// A shape that rays can hit.
pub trait Shape {
    spec fn wf(&self) -> bool;

    spec fn spec_normal(&self, p: V3) -> V3;

    spec fn spec_closest_hit(&self, ray: RayV) -> Option<int>;

    /// The (normalized) surface normal at a point on the shape.
    fn normal(&self, point: Vec3) -> (r: Vec3)
        requires
            self.wf(),
            in_range(point@, POS_MAX as int),
        ensures
            r@ == self.spec_normal(point@),
            in_range(r@, DIR_MAX as int),
    ;

    /// Parametric distance along the ray to the closest hit, if any.
    fn get_closest_hit(&self, ray: Ray) -> (r: Option<i64>)
        requires
            self.wf(),
            ray.wf(),
        ensures
            match r {
                Some(t) => self.spec_closest_hit(ray@) == Some(t as int),
                None => self.spec_closest_hit(ray@) is None,
            },
    ;
}

#[derive(Clone, Copy, Debug, PartialEq, Eq, Structural)]
pub struct Sphere {
    pub center: Vec3,
    pub radius: i64,
}

pub open spec fn sphere_wf(s: Sphere) -> bool {
    in_range(s.center@, WORLD_MAX as int) && 0 < s.radius <= WORLD_MAX
}

/// The geometric sphere test: no hit when the ray's closest approach
/// is farther than the radius; otherwise the smaller nonnegative root,
/// or the larger root when the origin is inside the sphere.
pub open spec fn sphere_hit(s: Sphere, ray: RayV) -> Option<int> {
    let l = sub_v(s.center@, ray.origin);
    let tca = dot_v(l, ray.direction);
    let d2 = dot_v(l, l) - fmul(tca, tca);
    let r2 = fmul(s.radius as int, s.radius as int);
    if d2 > r2 {
        None
    } else {
        let thc = fsqrt(r2 - d2);
        let t0 = tca - thc;
        let t1 = tca + thc;
        if t1 < 0 {
            None
        } else if t0 < 0 {
            Some(t1)
        } else {
            Some(t0)
        }
    }
}

impl Shape for Sphere {
    open spec fn wf(&self) -> bool {
        sphere_wf(*self)
    }

    open spec fn spec_normal(&self, p: V3) -> V3 {
        norm_v(sub_v(p, self.center@))
    }

    open spec fn spec_closest_hit(&self, ray: RayV) -> Option<int> {
        sphere_hit(*self, ray)
    }

    fn normal(&self, point: Vec3) -> (r: Vec3) {
        point.sub(self.center).normalize()
    }

    fn get_closest_hit(&self, ray: Ray) -> (r: Option<i64>) {
        let l: Vec3 = self.center.sub(ray.origin);
        proof {
            lemma_dot_bound(l@, ray@.direction, 0x3_0000_0000, DIR_MAX as int);
            lemma_dot_bound(l@, l@, 0x3_0000_0000, 0x3_0000_0000);
        }
        let tca: i64 = l.dot(ray.direction);
        let ll: i64 = l.dot(l);
        proof {
            lemma_fmul_bound(tca as int, tca as int, 0x12_0000_0000, 0x12_0000_0000);
            lemma_fmul_bound(self.radius as int, self.radius as int, WORLD_MAX as int, WORLD_MAX as int);
        }
        let tca2: i64 = fp_mul(tca, tca);
        let d2: i64 = ll - tca2;
        let r2: i64 = fp_mul(self.radius, self.radius);
        if d2 > r2 {
            None
        } else {
            proof {
                crate::fp::lemma_fsqrt_le(r2 as int - d2 as int, 0x20_0000_0000);
            }
            let thc: i64 = fp_sqrt(r2 - d2);
            let t0: i64 = tca - thc;
            let t1: i64 = tca + thc;
            if t1 < 0 {
                None
            } else if t0 < 0 {
                Some(t1)
            } else {
                Some(t0)
            }
        }
    }
}

/// A reported sphere hit parameter is never negative: both-negative
/// root pairs are reported as no hit.
pub proof fn lemma_sphere_hit_nonneg(s: Sphere, ray: RayV)
    ensures
        sphere_hit(s, ray) matches Some(t) ==> t >= 0,
{
}

/// A ray whose origin is strictly inside a sphere always hits it:
/// the test never reports absence from inside.
pub proof fn lemma_ray_inside_sphere_hits(s: Sphere, ray: RayV)
    requires
        dot_v(sub_v(s.center@, ray.origin), sub_v(s.center@, ray.origin))
            < fmul(s.radius as int, s.radius as int),
    ensures
        sphere_hit(s, ray) is Some,
{
    let l = sub_v(s.center@, ray.origin);
    let tca = dot_v(l, ray.direction);
    let ll = dot_v(l, l);
    let tca2 = fmul(tca, tca);
    let r2 = fmul(s.radius as int, s.radius as int);
    let d2 = ll - tca2;
    lemma_fmul_square_nonneg(tca);
    assert(d2 <= ll);
    assert(!(d2 > r2));
    let x = r2 - d2;
    assert(x >= 1 + tca2);
    // tca2 is the truncated square: tca2 * ONE reaches within ONE of tca * tca.
    assert(tca * tca >= 0) by (nonlinear_arith);
    assert(fp_abs(tca * tca) == tca * tca);
    assert(tca2 == (tca * tca) / (ONE as int));
    vstd::arithmetic::div_mod::lemma_fundamental_div_mod(tca * tca, ONE as int);
    vstd::arithmetic::div_mod::lemma_mod_bound(tca * tca, ONE as int);
    assert((ONE as int) * tca2 > tca * tca - (ONE as int));
    vstd::arithmetic::mul::lemma_mul_inequality(1 + tca2, x, ONE as int);
    assert(x * (ONE as int) >= (1 + tca2) * (ONE as int));
    assert((1 + tca2) * (ONE as int) == (ONE as int) + tca2 * (ONE as int)) by (nonlinear_arith);
    assert(tca2 * (ONE as int) == (ONE as int) * tca2) by (nonlinear_arith);
    assert(x * (ONE as int) > tca * tca);
    // hence the half-chord length is at least |tca|
    let thc = fsqrt(x);
    assert(x > 0);
    lemma_isqrt_props(x * (ONE as int));
    assert(thc == crate::fp::isqrt(x * (ONE as int)));
    if thc < fp_abs(tca) {
        assert((thc + 1) * (thc + 1) <= fp_abs(tca) * fp_abs(tca)) by (nonlinear_arith)
            requires 0 <= thc, thc < fp_abs(tca);
        crate::fp::lemma_abs_mul(tca, tca);
        assert(x * (ONE as int) < (thc + 1) * (thc + 1));
    }
    assert(thc >= fp_abs(tca));
    assert(tca + thc >= 0);
}

#[derive(Clone, Copy, Debug, PartialEq, Eq, Structural)]
pub struct Triangle {
    pub v1: Vertex,
    pub v2: Vertex,
    pub v3: Vertex,
}

pub open spec fn tri_wf(t: Triangle) -> bool {
    vertex_wf(t.v1) && vertex_wf(t.v2) && vertex_wf(t.v3)
}

/// Barycentric weights for the first two vertices: `x` is v1's weight,
/// `y` is v2's; v3's weight is `1 - x - y`.
#[derive(Clone, Copy, Debug, PartialEq, Eq, Structural)]
pub struct Point2 {
    pub x: i64,
    pub y: i64,
}

/// The Moller-Trumbore determinant `e1 . (dir x e2)`: zero when the
/// ray direction is parallel to the triangle's plane.
pub open spec fn tri_det(t: Triangle, ray: RayV) -> int {
    dot_v(
        sub_v(t.v2.position@, t.v1.position@),
        cross_v(ray.direction, sub_v(t.v3.position@, t.v1.position@)),
    )
}

/// `n / d` lies in `[0, 1]` (for nonzero `d`), decided without dividing.
pub open spec fn frac_in_unit(n: int, d: int) -> bool {
    if d > 0 {
        0 <= n <= d
    } else {
        d <= n <= 0
    }
}

/// The Moller-Trumbore triangle test; hit parameters above `T_MAX`
/// (outside the supported coordinate range) count as no hit.
///
/// The classic degeneracy epsilon (1e-7) lies below the resolution of
/// this representation (2^-16), so the parallel-ray band collapses to
/// an exactly zero determinant, and the positivity test on the hit
/// parameter to `t > 0`.
pub open spec fn tri_hit(t: Triangle, ray: RayV) -> Option<int> {
    let e1 = sub_v(t.v2.position@, t.v1.position@);
    let e2 = sub_v(t.v3.position@, t.v1.position@);
    let h = cross_v(ray.direction, e2);
    let a = dot_v(e1, h);
    if a == 0 {
        None
    } else {
        let s = sub_v(ray.origin, t.v1.position@);
        let unum = dot_v(s, h);
        if !frac_in_unit(unum, a) {
            None
        } else {
            let q = cross_v(s, e1);
            let vnum = dot_v(ray.direction, q);
            if !frac_in_unit(vnum, a) || !frac_in_unit(unum + vnum, a) {
                None
            } else {
                let tt = fdiv(dot_v(e2, q), a);
                if 0 < tt <= T_MAX as int {
                    Some(tt)
                } else {
                    None
                }
            }
        }
    }
}

/// A triangle hit parameter is always positive and at most `T_MAX`.
pub proof fn lemma_tri_hit_range(t: Triangle, ray: RayV)
    ensures
        tri_hit(t, ray) matches Some(tt) ==> 0 < tt <= T_MAX as int,
{
}

/// A ray whose direction is parallel to the triangle's plane (the
/// determinant vanishes) never hits.
pub proof fn lemma_parallel_ray_misses(t: Triangle, ray: RayV)
    requires
        tri_det(t, ray) == 0,
    ensures
        tri_hit(t, ray) is None,
{
}

/// Barycentric denominator `d00 * d11 - d01^2`; zero only for a
/// degenerate triangle.
pub open spec fn bary_denom(t: Triangle) -> int {
    let v0 = sub_v(t.v2.position@, t.v1.position@);
    let v1e = sub_v(t.v3.position@, t.v1.position@);
    fmul(dot_v(v0, v0), dot_v(v1e, v1e)) - fmul(dot_v(v0, v1e), dot_v(v0, v1e))
}

/// Barycentric weights of `p`: `(v1 weight, v2 weight)`, each division
/// clamped to `[-WEIGHT_MAX, WEIGHT_MAX]`.
pub open spec fn bary_v(t: Triangle, p: V3) -> (int, int) {
    let v0 = sub_v(t.v2.position@, t.v1.position@);
    let v1e = sub_v(t.v3.position@, t.v1.position@);
    let v2e = sub_v(p, t.v1.position@);
    let d00 = dot_v(v0, v0);
    let d01 = dot_v(v0, v1e);
    let d11 = dot_v(v1e, v1e);
    let d20 = dot_v(v2e, v0);
    let d21 = dot_v(v2e, v1e);
    let denom = bary_denom(t);
    let vv = clamp_s(fdiv(fmul(d11, d20) - fmul(d01, d21), denom), WEIGHT_MAX as int);
    let ww = clamp_s(fdiv(fmul(d00, d21) - fmul(d01, d20), denom), WEIGHT_MAX as int);
    (ONE as int - vv - ww, vv)
}

/// Normal interpolated from the vertex normals by barycentric weights,
/// before normalization.
pub open spec fn tri_interp_normal(t: Triangle, p: V3) -> V3 {
    let u = bary_v(t, p).0;
    let vv = bary_v(t, p).1;
    let w = ONE as int - u - vv;
    add_v(
        add_v(scale_v(u, t.v1.normal@), scale_v(vv, t.v2.normal@)),
        scale_v(w, t.v3.normal@),
    )
}

impl Triangle {
    pub fn new(v1: Vertex, v2: Vertex, v3: Vertex) -> (t: Triangle)
        ensures
            t.v1 == v1,
            t.v2 == v2,
            t.v3 == v3,
    {
        Triangle { v1, v2, v3 }
    }

    /// The componentwise bounding box of the three vertex positions.
    pub fn aabb(&self) -> (r: AABB)
        ensures
            r.min@.x == min3(self.v1.position@.x, self.v2.position@.x, self.v3.position@.x),
            r.min@.y == min3(self.v1.position@.y, self.v2.position@.y, self.v3.position@.y),
            r.min@.z == min3(self.v1.position@.z, self.v2.position@.z, self.v3.position@.z),
            r.max@.x == max3(self.v1.position@.x, self.v2.position@.x, self.v3.position@.x),
            r.max@.y == max3(self.v1.position@.y, self.v2.position@.y, self.v3.position@.y),
            r.max@.z == max3(self.v1.position@.z, self.v2.position@.z, self.v3.position@.z),
    {
        AABB {
            min: Vec3 {
                x: min3e(self.v1.position.x, self.v2.position.x, self.v3.position.x),
                y: min3e(self.v1.position.y, self.v2.position.y, self.v3.position.y),
                z: min3e(self.v1.position.z, self.v2.position.z, self.v3.position.z),
            },
            max: Vec3 {
                x: max3e(self.v1.position.x, self.v2.position.x, self.v3.position.x),
                y: max3e(self.v1.position.y, self.v2.position.y, self.v3.position.y),
                z: max3e(self.v1.position.z, self.v2.position.z, self.v3.position.z),
            },
        }
    }

    /// Barycentric weights of a point, exactly as `bary_v` states.
    pub fn get_barycentric(&self, p: Vec3) -> (r: Point2)
        requires
            tri_wf(*self),
            in_range(p@, POS_MAX as int),
        ensures
            r.x as int == bary_v(*self, p@).0,
            r.y as int == bary_v(*self, p@).1,
            fp_abs(r.x as int) <= 5 * (ONE as int),
            fp_abs(r.y as int) <= WEIGHT_MAX as int,
    {
        let v0: Vec3 = self.v2.position.sub(self.v1.position);
        let v1e: Vec3 = self.v3.position.sub(self.v1.position);
        let v2e: Vec3 = p.sub(self.v1.position);
        proof {
            lemma_dot_bound(v0@, v0@, 0x2_0000_0000, 0x2_0000_0000);
            lemma_dot_bound(v0@, v1e@, 0x2_0000_0000, 0x2_0000_0000);
            lemma_dot_bound(v1e@, v1e@, 0x2_0000_0000, 0x2_0000_0000);
            lemma_dot_bound(v2e@, v0@, 0x9_0000_0000, 0x2_0000_0000);
            lemma_dot_bound(v2e@, v1e@, 0x9_0000_0000, 0x2_0000_0000);
        }
        let d00: i64 = v0.dot(v0);
        let d01: i64 = v0.dot(v1e);
        let d11: i64 = v1e.dot(v1e);
        let d20: i64 = v2e.dot(v0);
        let d21: i64 = v2e.dot(v1e);
        proof {
            lemma_fmul_bound(d00 as int, d11 as int, 0xC_0000_0000_0000, 0xC_0000_0000_0000);
            lemma_fmul_bound(d01 as int, d01 as int, 0xC_0000_0000_0000, 0xC_0000_0000_0000);
            lemma_fmul_bound(d11 as int, d20 as int, 0xC_0000_0000_0000, 0x36_0000_0000_0000);
            lemma_fmul_bound(d01 as int, d21 as int, 0xC_0000_0000_0000, 0x36_0000_0000_0000);
            lemma_fmul_bound(d00 as int, d21 as int, 0xC_0000_0000_0000, 0x36_0000_0000_0000);
            lemma_fmul_bound(d01 as int, d20 as int, 0xC_0000_0000_0000, 0x36_0000_0000_0000);
        }
        let denom: i128 = mul_wide(d00, d11) - mul_wide(d01, d01);
        let vnum: i128 = mul_wide(d11, d20) - mul_wide(d01, d21);
        let wnum: i128 = mul_wide(d00, d21) - mul_wide(d01, d20);
        let vv: i64 = clamp_wide(div_wide(vnum, denom), WEIGHT_MAX);
        let ww: i64 = clamp_wide(div_wide(wnum, denom), WEIGHT_MAX);
        Point2 { x: ONE - vv - ww, y: vv }
    }
}

/// At the triangle's own vertices the barycentric weights are exactly
/// the unit weights — `(1, 0)` at v1, `(0, 1)` at v2 and `(0, 0)` at v3
/// (v3's weight `1 - x - y` is then 1) — and hence the interpolated
/// normal at each vertex is exactly that vertex's stored normal
/// (`spec_normal` then normalizes it).
pub proof fn lemma_barycentric_at_vertices(t: Triangle)
    requires
        bary_denom(t) != 0,
    ensures
        bary_v(t, t.v1.position@) == (ONE as int, 0int),
        bary_v(t, t.v2.position@) == (0int, ONE as int),
        bary_v(t, t.v3.position@) == (0int, 0int),
        tri_interp_normal(t, t.v1.position@) == t.v1.normal@,
        tri_interp_normal(t, t.v2.position@) == t.v2.normal@,
        tri_interp_normal(t, t.v3.position@) == t.v3.normal@,
{
    let v0 = sub_v(t.v2.position@, t.v1.position@);
    let v1e = sub_v(t.v3.position@, t.v1.position@);
    let d00 = dot_v(v0, v0);
    let d01 = dot_v(v0, v1e);
    let d11 = dot_v(v1e, v1e);
    let denom = bary_denom(t);
    lemma_fdiv_self(denom);
    crate::fp::lemma_fdiv_zero(denom);
    // the zero vector has zero dot products
    let z = sub_v(t.v1.position@, t.v1.position@);
    lemma_fmul_zero(v0.x);
    lemma_fmul_zero(v0.y);
    lemma_fmul_zero(v0.z);
    lemma_fmul_zero(v1e.x);
    lemma_fmul_zero(v1e.y);
    lemma_fmul_zero(v1e.z);
    assert(dot_v(z, v0) == 0);
    assert(dot_v(z, v1e) == 0);
    lemma_fmul_zero(d00);
    lemma_fmul_zero(d01);
    lemma_fmul_zero(d11);
    // dot products are symmetric and fixed-point products commute
    assert(dot_v(v1e, v0) == d01);
    assert(fmul(d11, d00) == fmul(d00, d11));
    assert(fmul(d00, d01) == fmul(d01, d00));
    assert(fmul(d11, d01) == fmul(d01, d11));
    // unit weights reproduce each stored normal exactly
    lemma_fmul_one(t.v1.normal@.x);
    lemma_fmul_one(t.v1.normal@.y);
    lemma_fmul_one(t.v1.normal@.z);
    lemma_fmul_one(t.v2.normal@.x);
    lemma_fmul_one(t.v2.normal@.y);
    lemma_fmul_one(t.v2.normal@.z);
    lemma_fmul_one(t.v3.normal@.x);
    lemma_fmul_one(t.v3.normal@.y);
    lemma_fmul_one(t.v3.normal@.z);
    lemma_fmul_zero(t.v1.normal@.x);
    lemma_fmul_zero(t.v1.normal@.y);
    lemma_fmul_zero(t.v1.normal@.z);
    lemma_fmul_zero(t.v2.normal@.x);
    lemma_fmul_zero(t.v2.normal@.y);
    lemma_fmul_zero(t.v2.normal@.z);
    lemma_fmul_zero(t.v3.normal@.x);
    lemma_fmul_zero(t.v3.normal@.y);
    lemma_fmul_zero(t.v3.normal@.z);
}

pub open spec fn min3(a: int, b: int, c: int) -> int {
    if a <= b && a <= c {
        a
    } else if b <= c {
        b
    } else {
        c
    }
}

pub open spec fn max3(a: int, b: int, c: int) -> int {
    if a >= b && a >= c {
        a
    } else if b >= c {
        b
    } else {
        c
    }
}

fn min3e(a: i64, b: i64, c: i64) -> (r: i64)
    ensures
        r as int == min3(a as int, b as int, c as int),
{
    if a <= b && a <= c {
        a
    } else if b <= c {
        b
    } else {
        c
    }
}

fn max3e(a: i64, b: i64, c: i64) -> (r: i64)
    ensures
        r as int == max3(a as int, b as int, c as int),
{
    if a >= b && a >= c {
        a
    } else if b >= c {
        b
    } else {
        c
    }
}

impl Shape for Triangle {
    open spec fn wf(&self) -> bool {
        tri_wf(*self)
    }

    open spec fn spec_normal(&self, p: V3) -> V3 {
        norm_v(tri_interp_normal(*self, p))
    }

    open spec fn spec_closest_hit(&self, ray: RayV) -> Option<int> {
        tri_hit(*self, ray)
    }

    fn normal(&self, point: Vec3) -> (r: Vec3) {
        let bc: Point2 = self.get_barycentric(point);
        let w: i64 = ONE - bc.x - bc.y;
        proof {
            lemma_scale_bound(bc.x as int, self.v1.normal@, 5 * (ONE as int), NORM_MAX as int);
            lemma_scale_bound(bc.y as int, self.v2.normal@, WEIGHT_MAX as int, NORM_MAX as int);
            lemma_scale_bound(w as int, self.v3.normal@, 8 * (ONE as int), NORM_MAX as int);
        }
        let n1: Vec3 = self.v1.normal.scale(bc.x);
        let n2: Vec3 = self.v2.normal.scale(bc.y);
        let n3: Vec3 = self.v3.normal.scale(w);
        n1.add(n2).add(n3).normalize()
    }

    fn get_closest_hit(&self, ray: Ray) -> (r: Option<i64>) {
        let e1: Vec3 = self.v2.position.sub(self.v1.position);
        let e2: Vec3 = self.v3.position.sub(self.v1.position);
        proof {
            lemma_cross_bound(ray@.direction, e2@, DIR_MAX as int, 0x2_0000_0000);
        }
        let h: Vec3 = ray.direction.cross(e2);
        proof {
            lemma_dot_bound(e1@, h@, 0x2_0000_0000, 0x8_0000_0000);
        }
        let a: i64 = e1.dot(h);
        if a == 0 {
            return None;
        }
        let s: Vec3 = ray.origin.sub(self.v1.position);
        proof {
            lemma_dot_bound(s@, h@, 0x3_0000_0000, 0x8_0000_0000);
        }
        let unum: i64 = s.dot(h);
        let u_ok: bool = if a > 0 {
            0 <= unum && unum <= a
        } else {
            a <= unum && unum <= 0
        };
        if !u_ok {
            return None;
        }
        proof {
            lemma_cross_bound(s@, e1@, 0x3_0000_0000, 0x2_0000_0000);
        }
        let q: Vec3 = s.cross(e1);
        proof {
            lemma_dot_bound(ray@.direction, q@, DIR_MAX as int, 0xC_0000_0000_0000);
        }
        let vnum: i64 = ray.direction.dot(q);
        let v_ok: bool = if a > 0 {
            0 <= vnum && vnum <= a
        } else {
            a <= vnum && vnum <= 0
        };
        let uv: i64 = unum + vnum;
        let uv_ok: bool = if a > 0 {
            0 <= uv && uv <= a
        } else {
            a <= uv && uv <= 0
        };
        if !v_ok || !uv_ok {
            return None;
        }
        proof {
            lemma_dot_bound(e2@, q@, 0x2_0000_0000, 0xC_0000_0000_0000);
        }
        let e2q: i128 = e2.dot_wide(q);
        let tw: i128 = div_wide(e2q, a as i128);
        if 0 < tw && tw <= T_MAX as i128 {
            Some(tw as i64)
        } else {
            None
        }
    }
}

} // verus!
