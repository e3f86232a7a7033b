//! Mesh geometry: an immutable vertex/face soup.
//!
//! An external loader parses the asset file and hands this module flat
//! position, normal and index arrays; `Mesh::from_arrays` validates
//! them and repackages them into `Vertex` and `Face` records,
//! normalizing each vertex normal on ingestion. The library never
//! parses a file format itself.

use vstd::prelude::*;
use crate::fp::{fp_abs, MODEL_MAX, DIR_MAX};
use crate::vec3::{Vec3, V3, in_range, norm_v};
use crate::shape::Vertex;

verus! {

/// Three indices into a vertex collection, defining a triangle's winding.
#[derive(Clone, Copy, Debug, PartialEq, Eq, Structural)]
pub struct Face {
    pub v1_off: usize,
    pub v2_off: usize,
    pub v3_off: usize,
}

/// Loaded geometry, in model space; immutable once built.
pub struct Mesh {
    pub vertices: Vec<Vertex>,
    pub faces: Vec<Face>,
}

/// Mesh vertices live in model space and carry normalized normals.
pub open spec fn mesh_vertex_wf(v: Vertex) -> bool {
    in_range(v.position@, MODEL_MAX as int) && in_range(v.normal@, DIR_MAX as int)
}

pub open spec fn face_ok(f: Face, n: int) -> bool {
    (f.v1_off as int) < n && (f.v2_off as int) < n && (f.v3_off as int) < n
}

/// Validity of the loader's flat arrays: positions and normals come in
/// matched triples within the model-space range, and every index
/// addresses a vertex.
pub open spec fn arrays_ok(ps: Seq<i64>, ns: Seq<i64>, ix: Seq<usize>) -> bool {
    &&& ps.len() % 3 == 0
    &&& ns.len() == ps.len()
    &&& ix.len() % 3 == 0
    &&& forall|i: int| 0 <= i < ps.len() ==> fp_abs((#[trigger] ps[i]) as int) <= MODEL_MAX as int
    &&& forall|i: int| 0 <= i < ns.len() ==> fp_abs((#[trigger] ns[i]) as int) <= MODEL_MAX as int
    &&& forall|i: int| 0 <= i < ix.len() ==> ((#[trigger] ix[i]) as int) < ps.len() as int / 3
}

impl Mesh {
    pub open spec fn wf(&self) -> bool {
        &&& forall|i: int|
            0 <= i < self.vertices@.len() ==> mesh_vertex_wf(#[trigger] self.vertices@[i])
        &&& forall|i: int|
            0 <= i < self.faces@.len() ==> face_ok(
                #[trigger] self.faces@[i],
                self.vertices@.len() as int,
            )
    }

    /// Build a mesh from the loader's flat arrays; `None` exactly when
    /// the arrays are not a valid triple soup.
    pub fn from_arrays(positions: &Vec<i64>, normals: &Vec<i64>, indices: &Vec<usize>) -> (r:
        Option<Mesh>)
        ensures
            match r {
                Some(m) => {
                    &&& arrays_ok(positions@, normals@, indices@)
                    &&& m.wf()
                    &&& m.vertices@.len() as int == positions@.len() as int / 3
                    &&& forall|i: int|
                        0 <= i < m.vertices@.len() ==> (#[trigger] m.vertices@[i]).position@
                            == (V3 {
                            x: positions@[3 * i] as int,
                            y: positions@[3 * i + 1] as int,
                            z: positions@[3 * i + 2] as int,
                        }) && m.vertices@[i].normal@ == norm_v(
                            V3 {
                                x: normals@[3 * i] as int,
                                y: normals@[3 * i + 1] as int,
                                z: normals@[3 * i + 2] as int,
                            },
                        )
                    &&& m.faces@.len() as int == indices@.len() as int / 3
                    &&& forall|k: int|
                        0 <= k < m.faces@.len() ==> (#[trigger] m.faces@[k]) == (Face {
                            v1_off: indices@[3 * k],
                            v2_off: indices@[3 * k + 1],
                            v3_off: indices@[3 * k + 2],
                        })
                },
                None => !arrays_ok(positions@, normals@, indices@),
            },
    {
        if positions.len() % 3 != 0 || normals.len() != positions.len() || indices.len() % 3 != 0 {
            return None;
        }
        let mut k: usize = 0;
        while k < positions.len()
            invariant
                k <= positions@.len(),
                forall|j: int|
                    0 <= j < k as int ==> fp_abs((#[trigger] positions@[j]) as int)
                        <= MODEL_MAX as int,
            decreases positions@.len() - k as int,
        {
            if positions[k] > MODEL_MAX || positions[k] < -MODEL_MAX {
                return None;
            }
            k = k + 1;
        }
        let mut k: usize = 0;
        while k < normals.len()
            invariant
                k <= normals@.len(),
                forall|j: int|
                    0 <= j < k as int ==> fp_abs((#[trigger] normals@[j]) as int)
                        <= MODEL_MAX as int,
            decreases normals@.len() - k as int,
        {
            if normals[k] > MODEL_MAX || normals[k] < -MODEL_MAX {
                return None;
            }
            k = k + 1;
        }
        let nv: usize = positions.len() / 3;
        let mut k: usize = 0;
        while k < indices.len()
            invariant
                k <= indices@.len(),
                nv as int == positions@.len() as int / 3,
                forall|j: int|
                    0 <= j < k as int ==> ((#[trigger] indices@[j]) as int)
                        < positions@.len() as int / 3,
            decreases indices@.len() - k as int,
        {
            if indices[k] >= nv {
                return None;
            }
            k = k + 1;
        }
        proof {
            vstd::arithmetic::div_mod::lemma_fundamental_div_mod(positions@.len() as int, 3);
            vstd::arithmetic::div_mod::lemma_fundamental_div_mod(indices@.len() as int, 3);
        }
        let mut vertices: Vec<Vertex> = Vec::new();
        let mut i: usize = 0;
        while i < nv
            invariant
                i <= nv,
                positions@.len() <= usize::MAX,
                nv as int == positions@.len() as int / 3,
                3 * (nv as int) == positions@.len() as int,
                normals@.len() == positions@.len(),
                forall|j: int|
                    0 <= j < positions@.len() ==> fp_abs((#[trigger] positions@[j]) as int)
                        <= MODEL_MAX as int,
                forall|j: int|
                    0 <= j < normals@.len() ==> fp_abs((#[trigger] normals@[j]) as int)
                        <= MODEL_MAX as int,
                vertices@.len() == i as int,
                forall|j: int|
                    0 <= j < i as int ==> (#[trigger] vertices@[j]).position@ == (V3 {
                        x: positions@[3 * j] as int,
                        y: positions@[3 * j + 1] as int,
                        z: positions@[3 * j + 2] as int,
                    }) && vertices@[j].normal@ == norm_v(
                        V3 {
                            x: normals@[3 * j] as int,
                            y: normals@[3 * j + 1] as int,
                            z: normals@[3 * j + 2] as int,
                        },
                    ) && mesh_vertex_wf(vertices@[j]),
            decreases nv - i,
        {
            let position: Vec3 = Vec3::new(
                positions[3 * i],
                positions[3 * i + 1],
                positions[3 * i + 2],
            );
            let normal: Vec3 = Vec3::new(
                normals[3 * i],
                normals[3 * i + 1],
                normals[3 * i + 2],
            ).normalize();
            vertices.push(Vertex { position, normal });
            i = i + 1;
        }
        let nf: usize = indices.len() / 3;
        let mut faces: Vec<Face> = Vec::new();
        let mut k: usize = 0;
        while k < nf
            invariant
                k <= nf,
                indices@.len() <= usize::MAX,
                nf as int == indices@.len() as int / 3,
                3 * (nf as int) == indices@.len() as int,
                nv as int == positions@.len() as int / 3,
                forall|j: int|
                    0 <= j < indices@.len() ==> ((#[trigger] indices@[j]) as int)
                        < positions@.len() as int / 3,
                faces@.len() == k as int,
                forall|j: int|
                    0 <= j < k as int ==> (#[trigger] faces@[j]) == (Face {
                        v1_off: indices@[3 * j],
                        v2_off: indices@[3 * j + 1],
                        v3_off: indices@[3 * j + 2],
                    }) && face_ok(faces@[j], nv as int),
            decreases nf - k,
        {
            let f = Face {
                v1_off: indices[3 * k],
                v2_off: indices[3 * k + 1],
                v3_off: indices[3 * k + 2],
            };
            faces.push(f);
            k = k + 1;
        }
        Some(Mesh { vertices, faces })
    }
}

} // verus!
