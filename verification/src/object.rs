//! Placed instances: a mesh transformed into world space plus a material.
//!
//! A `Transform` is an affine map: three linear rows and a translation.
//! Positions go through the map directly; normals go through the
//! inverse-transpose of the linear part, computed from cofactor rows
//! over the determinant, exactly as `tf_normal` states.

use vstd::prelude::*;
use crate::fp::{
    fdiv, clamp_s, ONE, MODEL_MAX, LIN_MAX, WORLD_MAX, NORM_MAX, DIR_MAX,
    div_wide, clamp_wide,
    lemma_fmul_one, lemma_fmul_zero, lemma_fdiv_one,
};
use crate::vec3::{Vec3, V3, in_range, dot_v, cross_v, lemma_dot_bound, lemma_cross_bound};
use crate::types::{Ray, RayV, ray_at, Intersection, IV, inter_wf};
use crate::shape::{Shape, Triangle, Vertex, vertex_wf, tri_wf, tri_hit, lemma_tri_hit_range};
use crate::mesh::{Mesh, Face};
use crate::material::Material;

verus! {

/// An affine transform: linear rows `r0..r2` and translation `t`.
#[derive(Clone, Copy, Debug, PartialEq, Eq, Structural)]
pub struct Transform {
    pub r0: Vec3,
    pub r1: Vec3,
    pub r2: Vec3,
    pub t: Vec3,
}

pub open spec fn transform_wf(tf: Transform) -> bool {
    &&& in_range(tf.r0@, LIN_MAX as int)
    &&& in_range(tf.r1@, LIN_MAX as int)
    &&& in_range(tf.r2@, LIN_MAX as int)
    &&& in_range(tf.t@, MODEL_MAX as int)
}

/// Determinant of the linear part.
pub open spec fn tf_det(tf: Transform) -> int {
    dot_v(tf.r0@, cross_v(tf.r1@, tf.r2@))
}

/// Apply the affine map to a point.
pub open spec fn tf_point(tf: Transform, p: V3) -> V3 {
    V3 {
        x: dot_v(tf.r0@, p) + tf.t@.x,
        y: dot_v(tf.r1@, p) + tf.t@.y,
        z: dot_v(tf.r2@, p) + tf.t@.z,
    }
}

/// Apply the inverse-transpose of the linear part to a normal: the
/// cofactor rows over the determinant, each component clamped to the
/// stored-normal band. Not renormalized; `Triangle::normal` normalizes
/// after interpolation, where unit length matters.
pub open spec fn tf_normal(tf: Transform, n: V3) -> V3 {
    let det = tf_det(tf);
    V3 {
        x: clamp_s(fdiv(dot_v(cross_v(tf.r1@, tf.r2@), n), det), NORM_MAX as int),
        y: clamp_s(fdiv(dot_v(cross_v(tf.r2@, tf.r0@), n), det), NORM_MAX as int),
        z: clamp_s(fdiv(dot_v(cross_v(tf.r0@, tf.r1@), n), det), NORM_MAX as int),
    }
}

/// The identity transform.
pub open spec fn identity_t() -> Transform {
    Transform {
        r0: Vec3 { x: ONE, y: 0, z: 0 },
        r1: Vec3 { x: 0, y: ONE, z: 0 },
        r2: Vec3 { x: 0, y: 0, z: ONE },
        t: Vec3 { x: 0, y: 0, z: 0 },
    }
}

/// The identity transform maps every point to itself, exactly.
pub proof fn lemma_identity_point(p: V3)
    ensures
        tf_point(identity_t(), p) == p,
{
    lemma_fmul_one(p.x);
    lemma_fmul_one(p.y);
    lemma_fmul_one(p.z);
    lemma_fmul_zero(p.x);
    lemma_fmul_zero(p.y);
    lemma_fmul_zero(p.z);
}

/// The identity transform maps every stored normal to itself, exactly:
/// its cofactor rows are the identity again and its determinant is 1.
pub proof fn lemma_identity_normal(n: V3)
    requires
        in_range(n, NORM_MAX as int),
    ensures
        tf_normal(identity_t(), n) == n,
        tf_det(identity_t()) == ONE as int,
{
    lemma_fmul_one(ONE as int);
    lemma_fmul_zero(ONE as int);
    lemma_fmul_zero(0);
    lemma_fmul_one(n.x);
    lemma_fmul_one(n.y);
    lemma_fmul_one(n.z);
    lemma_fmul_zero(n.x);
    lemma_fmul_zero(n.y);
    lemma_fmul_zero(n.z);
    lemma_fdiv_one(n.x);
    lemma_fdiv_one(n.y);
    lemma_fdiv_one(n.z);
}

impl Transform {
    pub fn new(r0: Vec3, r1: Vec3, r2: Vec3, t: Vec3) -> (r: Transform)
        ensures
            r == (Transform { r0, r1, r2, t }),
    {
        Transform { r0, r1, r2, t }
    }

    pub fn identity() -> (r: Transform)
        ensures
            r == identity_t(),
            transform_wf(r),
    {
        Transform {
            r0: Vec3 { x: ONE, y: 0, z: 0 },
            r1: Vec3 { x: 0, y: ONE, z: 0 },
            r2: Vec3 { x: 0, y: 0, z: ONE },
            t: Vec3 { x: 0, y: 0, z: 0 },
        }
    }

    pub fn from_translation(v: Vec3) -> (r: Transform)
        requires
            in_range(v@, MODEL_MAX as int),
        ensures
            r.r0 == identity_t().r0,
            r.r1 == identity_t().r1,
            r.r2 == identity_t().r2,
            r.t == v,
            transform_wf(r),
    {
        Transform {
            r0: Vec3 { x: ONE, y: 0, z: 0 },
            r1: Vec3 { x: 0, y: ONE, z: 0 },
            r2: Vec3 { x: 0, y: 0, z: ONE },
            t: v,
        }
    }

    /// Determinant of the linear part.
    pub fn det(&self) -> (d: i64)
        requires
            transform_wf(*self),
        ensures
            d as int == tf_det(*self),
    {
        proof {
            lemma_cross_bound(self.r1@, self.r2@, LIN_MAX as int, LIN_MAX as int);
            lemma_dot_bound(self.r0@, cross_v(self.r1@, self.r2@), LIN_MAX as int, 0x20_0000);
        }
        self.r0.dot(self.r1.cross(self.r2))
    }

    /// Transform a model-space point into world space.
    pub fn apply_point(&self, p: Vec3) -> (r: Vec3)
        requires
            transform_wf(*self),
            in_range(p@, MODEL_MAX as int),
        ensures
            r@ == tf_point(*self, p@),
            in_range(r@, WORLD_MAX as int),
    {
        proof {
            lemma_dot_bound(self.r0@, p@, LIN_MAX as int, MODEL_MAX as int);
            lemma_dot_bound(self.r1@, p@, LIN_MAX as int, MODEL_MAX as int);
            lemma_dot_bound(self.r2@, p@, LIN_MAX as int, MODEL_MAX as int);
        }
        Vec3 {
            x: self.r0.dot(p) + self.t.x,
            y: self.r1.dot(p) + self.t.y,
            z: self.r2.dot(p) + self.t.z,
        }
    }

    /// Transform a model-space normal by the inverse-transpose rule.
    pub fn apply_normal(&self, n: Vec3) -> (r: Vec3)
        requires
            transform_wf(*self),
            in_range(n@, DIR_MAX as int),
        ensures
            r@ == tf_normal(*self, n@),
            in_range(r@, NORM_MAX as int),
    {
        let det: i64 = self.det();
        proof {
            lemma_cross_bound(self.r1@, self.r2@, LIN_MAX as int, LIN_MAX as int);
            lemma_cross_bound(self.r2@, self.r0@, LIN_MAX as int, LIN_MAX as int);
            lemma_cross_bound(self.r0@, self.r1@, LIN_MAX as int, LIN_MAX as int);
            lemma_dot_bound(cross_v(self.r1@, self.r2@), n@, 0x20_0000, DIR_MAX as int);
            lemma_dot_bound(cross_v(self.r2@, self.r0@), n@, 0x20_0000, DIR_MAX as int);
            lemma_dot_bound(cross_v(self.r0@, self.r1@), n@, 0x20_0000, DIR_MAX as int);
        }
        let c0: Vec3 = self.r1.cross(self.r2);
        let c1: Vec3 = self.r2.cross(self.r0);
        let c2: Vec3 = self.r0.cross(self.r1);
        Vec3 {
            x: clamp_wide(div_wide(c0.dot(n) as i128, det as i128), NORM_MAX),
            y: clamp_wide(div_wide(c1.dot(n) as i128, det as i128), NORM_MAX),
            z: clamp_wide(div_wide(c2.dot(n) as i128, det as i128), NORM_MAX),
        }
    }
}

/// A placed instance: world-space vertices and triangles baked at
/// construction, plus the transform used and the material.
pub struct Object {
    pub vertices: Vec<Vertex>,
    pub faces: Vec<Face>,
    pub triangles: Vec<Triangle>,
    pub transform: Transform,
    pub material: Material,
}

impl Object {
    pub open spec fn wf(&self) -> bool {
        &&& forall|i: int| 0 <= i < self.triangles@.len() ==> tri_wf(#[trigger] self.triangles@[i])
        &&& self.material.wf()
    }

    /// Bake a mesh into world space. Requires an invertible transform
    /// (nonzero determinant): the normal transform is undefined without it.
    pub fn new(mesh: &Mesh, transform: Transform, material: Material) -> (o: Object)
        requires
            mesh.wf(),
            transform_wf(transform),
            tf_det(transform) != 0,
            material.wf(),
        ensures
            o.wf(),
            o.material == material,
            o.transform == transform,
            o.vertices@.len() == mesh.vertices@.len(),
            forall|i: int|
                0 <= i < mesh.vertices@.len() ==> (#[trigger] o.vertices@[i]).position@
                    == tf_point(transform, mesh.vertices@[i].position@) && o.vertices@[i].normal@
                    == tf_normal(transform, mesh.vertices@[i].normal@),
            o.faces@ == mesh.faces@,
            o.triangles@.len() == mesh.faces@.len(),
            forall|k: int|
                0 <= k < mesh.faces@.len() ==> #[trigger] o.triangles@[k] == (Triangle {
                    v1: o.vertices@[mesh.faces@[k].v1_off as int],
                    v2: o.vertices@[mesh.faces@[k].v2_off as int],
                    v3: o.vertices@[mesh.faces@[k].v3_off as int],
                }),
    {
        let n: usize = mesh.vertices.len();
        let mut vertices: Vec<Vertex> = Vec::new();
        let mut i: usize = 0;
        while i < n
            invariant
                i <= n,
                n as int == mesh.vertices@.len(),
                mesh.wf(),
                transform_wf(transform),
                vertices@.len() == i as int,
                forall|j: int|
                    0 <= j < i as int ==> (#[trigger] vertices@[j]).position@
                        == tf_point(transform, mesh.vertices@[j].position@) && vertices@[j].normal@
                        == tf_normal(transform, mesh.vertices@[j].normal@) && vertex_wf(
                        vertices@[j],
                    ),
            decreases n - i,
        {
            let v: Vertex = mesh.vertices[i];
            let position: Vec3 = transform.apply_point(v.position);
            let normal: Vec3 = transform.apply_normal(v.normal);
            vertices.push(Vertex { position, normal });
            i = i + 1;
        }
        let m: usize = mesh.faces.len();
        let mut faces: Vec<Face> = Vec::new();
        let mut triangles: Vec<Triangle> = Vec::new();
        let mut k: usize = 0;
        while k < m
            invariant
                k <= m,
                m as int == mesh.faces@.len(),
                mesh.wf(),
                vertices@.len() == mesh.vertices@.len(),
                forall|j: int| 0 <= j < vertices@.len() ==> vertex_wf(#[trigger] vertices@[j]),
                faces@.len() == k as int,
                triangles@.len() == k as int,
                forall|j: int| 0 <= j < k as int ==> #[trigger] faces@[j] == mesh.faces@[j],
                forall|j: int|
                    0 <= j < k as int ==> #[trigger] triangles@[j] == (Triangle {
                        v1: vertices@[mesh.faces@[j].v1_off as int],
                        v2: vertices@[mesh.faces@[j].v2_off as int],
                        v3: vertices@[mesh.faces@[j].v3_off as int],
                    }) && tri_wf(triangles@[j]),
            decreases m - k,
        {
            let f: Face = mesh.faces[k];
            let v1: Vertex = vertices[f.v1_off];
            let v2: Vertex = vertices[f.v2_off];
            let v3: Vertex = vertices[f.v3_off];
            faces.push(f);
            triangles.push(Triangle::new(v1, v2, v3));
            k = k + 1;
        }
        proof {
            assert(faces@ =~= mesh.faces@);
        }
        Object { vertices, faces, triangles, transform, material }
    }

    /// Linear scan over all triangles: the hit with the smallest
    /// parametric distance wins; ties keep the earlier triangle.
    pub fn intersects(&self, ray: Ray) -> (r: Option<Intersection>)
        requires
            self.wf(),
            ray.wf(),
        ensures
            match r {
                Some(inter) => obj_hit(*self, ray@) == Some(inter@) && inter_wf(inter@),
                None => obj_hit(*self, ray@) is None,
            },
    {
        let n: usize = self.triangles.len();
        let mut best: Option<Intersection> = None;
        let mut best_t: i64 = 0;
        let mut idx: usize = 0;
        while idx < n
            invariant
                self.wf(),
                ray.wf(),
                idx <= n,
                n as int == self.triangles@.len(),
                match best {
                    Some(inter) => obj_hit_upto(self.triangles@, ray@, idx as int) == Some(
                        (best_t as int, inter@),
                    ) && inter_wf(inter@),
                    None => obj_hit_upto(self.triangles@, ray@, idx as int) is None,
                },
            decreases n - idx,
        {
            let tri: Triangle = self.triangles[idx];
            match tri.get_closest_hit(ray) {
                None => {},
                Some(t) => {
                    proof {
                        lemma_tri_hit_range(tri, ray@);
                    }
                    let pos: Vec3 = ray.at(t);
                    let nrm: Vec3 = tri.normal(pos);
                    let take: bool = match best {
                        None => true,
                        Some(_) => best_t > t,
                    };
                    if take {
                        best = Some(Intersection { position: pos, normal: nrm });
                        best_t = t;
                    }
                },
            }
            idx = idx + 1;
        }
        best
    }
}

/// Fold over a triangle prefix: the best (smallest-t) hit among the
/// first `n` triangles, with its parametric distance.
pub open spec fn obj_hit_upto(tris: Seq<Triangle>, ray: RayV, n: int) -> Option<(int, IV)>
    decreases n,
{
    if n <= 0 {
        None
    } else {
        let prev = obj_hit_upto(tris, ray, n - 1);
        match tri_hit(tris[n - 1], ray) {
            Option::None => prev,
            Option::Some(t) => {
                let p = ray_at(ray, t);
                let cand = (t, IV { position: p, normal: tris[n - 1].spec_normal(p) });
                match prev {
                    Option::None => Some(cand),
                    Option::Some((bt, bi)) => if bt > t {
                        Some(cand)
                    } else {
                        prev
                    },
                }
            },
        }
    }
}

/// The object's nearest hit: the fold over all its triangles.
pub open spec fn obj_hit(o: Object, ray: RayV) -> Option<IV> {
    match obj_hit_upto(o.triangles@, ray, o.triangles@.len() as int) {
        Option::Some((t, iv)) => Some(iv),
        Option::None => None,
    }
}

} // verus!
