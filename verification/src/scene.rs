//! Scene-level nearest-hit aggregation.
//!
//! A scene owns placed objects and point lights. `intersects` queries
//! every object and keeps the hit nearest to the ray origin, measured
//! consistently for both sides by the fixed-point squared Euclidean
//! distance; ties keep the earlier object.

use vstd::prelude::*;
use crate::fp::{WORLD_MAX, DIR_MAX, POS_MAX};
use crate::vec3::{Vec3, V3, in_range, dist2_v};
use crate::types::{Ray, RayV, IV};
use crate::object::{Object, obj_hit};
use crate::material::Material;

verus! {

/// Mathematical view of a scene-level hit.
pub struct SIV {
    pub object_id: int,
    pub position: V3,
    pub normal: V3,
    pub material: Material,
}

/// A scene-level hit: the intersection, the owning object's index and
/// its material.
#[derive(Clone, Copy, Debug, PartialEq, Eq, Structural)]
pub struct SceneIntersection {
    pub object_id: usize,
    pub position: Vec3,
    pub normal: Vec3,
    pub material: Material,
}

impl View for SceneIntersection {
    type V = SIV;

    open spec fn view(&self) -> SIV {
        SIV {
            object_id: self.object_id as int,
            position: self.position@,
            normal: self.normal@,
            material: self.material,
        }
    }
}

/// A collection of placed objects plus point lights.
pub struct Scene {
    pub objects: Vec<Object>,
    pub lights: Vec<Vec3>,
}

/// Fold over an object prefix: the hit nearest to the ray origin among
/// the first `n` objects (strictly nearer replaces; ties keep the
/// earlier object), tagged with index and material.
pub open spec fn scene_hit_upto(objs: Seq<Object>, ray: RayV, n: int) -> Option<SIV>
    decreases n,
{
    if n <= 0 {
        None
    } else {
        let prev = scene_hit_upto(objs, ray, n - 1);
        match obj_hit(objs[n - 1], ray) {
            Option::None => prev,
            Option::Some(iv) => {
                let cand = SIV {
                    object_id: n - 1,
                    position: iv.position,
                    normal: iv.normal,
                    material: objs[n - 1].material,
                };
                match prev {
                    Option::None => Some(cand),
                    Option::Some(p) => if dist2_v(iv.position, ray.origin) < dist2_v(
                        p.position,
                        ray.origin,
                    ) {
                        Some(cand)
                    } else {
                        prev
                    },
                }
            },
        }
    }
}

/// The scene's nearest hit across all objects.
pub open spec fn scene_hit(s: Scene, ray: RayV) -> Option<SIV> {
    scene_hit_upto(s.objects@, ray, s.objects@.len() as int)
}

impl Scene {
    pub open spec fn wf(&self) -> bool {
        &&& forall|i: int| 0 <= i < self.objects@.len() ==> (#[trigger] self.objects@[i]).wf()
        &&& forall|i: int|
            0 <= i < self.lights@.len() ==> in_range((#[trigger] self.lights@[i])@, WORLD_MAX as int)
    }

    pub fn new() -> (s: Scene)
        ensures
            s.objects@.len() == 0,
            s.lights@.len() == 0,
            s.wf(),
    {
        Scene { objects: Vec::new(), lights: Vec::new() }
    }

    /// The nearest hit across all objects, or `None` when every object
    /// misses.
    pub fn intersects(&self, ray: Ray) -> (r: Option<SceneIntersection>)
        requires
            self.wf(),
            ray.wf(),
        ensures
            match r {
                Some(si) => {
                    &&& scene_hit(*self, ray@) == Some(si@)
                    &&& in_range(si@.position, POS_MAX as int)
                    &&& in_range(si@.normal, DIR_MAX as int)
                    &&& si.material.wf()
                    &&& 0 <= si@.object_id < self.objects@.len()
                },
                None => scene_hit(*self, ray@) is None,
            },
    {
        let n: usize = self.objects.len();
        let mut best: Option<SceneIntersection> = None;
        let mut idx: usize = 0;
        while idx < n
            invariant
                self.wf(),
                ray.wf(),
                idx <= n,
                n as int == self.objects@.len(),
                match best {
                    Some(si) => {
                        &&& scene_hit_upto(self.objects@, ray@, idx as int) == Some(si@)
                        &&& in_range(si@.position, POS_MAX as int)
                        &&& in_range(si@.normal, DIR_MAX as int)
                        &&& si.material.wf()
                        &&& 0 <= si@.object_id < self.objects@.len()
                    },
                    None => scene_hit_upto(self.objects@, ray@, idx as int) is None,
                },
            decreases n - idx,
        {
            let obj: &Object = &self.objects[idx];
            match obj.intersects(ray) {
                None => {},
                Some(inter) => {
                    let take: bool = match best {
                        None => true,
                        Some(prev) => {
                            inter.position.dist2(ray.origin) < prev.position.dist2(ray.origin)
                        },
                    };
                    if take {
                        best = Some(
                            SceneIntersection {
                                object_id: idx,
                                position: inter.position,
                                normal: inter.normal,
                                material: obj.material,
                            },
                        );
                    }
                },
            }
            idx = idx + 1;
        }
        best
    }
}

/// For a scene where exactly one object is hit by the ray, the scene
/// reports that object's intersection, tagged with its index and its
/// material.
pub proof fn lemma_scene_unique_hit(s: Scene, ray: RayV, k: int, iv: IV)
    requires
        0 <= k < s.objects@.len(),
        obj_hit(s.objects@[k], ray) == Some(iv),
        forall|j: int|
            0 <= j < s.objects@.len() && j != k ==> obj_hit(#[trigger] s.objects@[j], ray) is None,
    ensures
        scene_hit(s, ray) == Some(
            SIV {
                object_id: k,
                position: iv.position,
                normal: iv.normal,
                material: s.objects@[k].material,
            },
        ),
{
    lemma_scene_unique_hit_upto(s, ray, k, iv, s.objects@.len() as int);
}

proof fn lemma_scene_unique_hit_upto(s: Scene, ray: RayV, k: int, iv: IV, n: int)
    requires
        0 <= k < s.objects@.len(),
        n <= s.objects@.len(),
        obj_hit(s.objects@[k], ray) == Some(iv),
        forall|j: int|
            0 <= j < s.objects@.len() && j != k ==> obj_hit(#[trigger] s.objects@[j], ray) is None,
    ensures
        n <= k ==> scene_hit_upto(s.objects@, ray, n) is None,
        n > k ==> scene_hit_upto(s.objects@, ray, n) == Some(
            SIV {
                object_id: k,
                position: iv.position,
                normal: iv.normal,
                material: s.objects@[k].material,
            },
        ),
    decreases n,
{
    if n > 0 {
        lemma_scene_unique_hit_upto(s, ray, k, iv, n - 1);
    }
}

} // verus!
