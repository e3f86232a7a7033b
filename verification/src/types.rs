//! Rays and intersection records.

use vstd::prelude::*;
use crate::fp::{fp_abs, RAY_MAX, DIR_MAX, T_MAX, POS_MAX};
use crate::vec3::{Vec3, V3, in_range, add_v, sub_v, scale_v, norm_v, lemma_scale_bound};

verus! {

/// Mathematical view of a ray.
pub struct RayV {
    pub origin: V3,
    pub direction: V3,
}

/// A ray: origin plus direction. Constructors normalize the direction,
/// an invariant the rest of the library never re-checks.
#[derive(Clone, Copy, Debug, PartialEq, Eq, Structural)]
pub struct Ray {
    pub origin: Vec3,
    pub direction: Vec3,
}

impl View for Ray {
    type V = RayV;

    open spec fn view(&self) -> RayV {
        RayV { origin: self.origin@, direction: self.direction@ }
    }
}

pub open spec fn ray_wf(r: RayV) -> bool {
    in_range(r.origin, RAY_MAX as int) && in_range(r.direction, DIR_MAX as int)
}

/// The point `origin + t * direction`.
pub open spec fn ray_at(r: RayV, t: int) -> V3 {
    add_v(r.origin, scale_v(t, r.direction))
}

impl Ray {
    pub open spec fn wf(&self) -> bool {
        ray_wf(self@)
    }

    pub fn new(origin: Vec3, direction: Vec3) -> (r: Ray)
        requires
            in_range(origin@, RAY_MAX as int),
            in_range(direction@, 0x10_0000_0000),
        ensures
            r@.origin == origin@,
            r@.direction == norm_v(direction@),
            r.wf(),
    {
        Ray { origin, direction: direction.normalize() }
    }

    pub fn between(from: Vec3, to: Vec3) -> (r: Ray)
        requires
            in_range(from@, RAY_MAX as int),
            in_range(to@, POS_MAX as int),
        ensures
            r@.origin == from@,
            r@.direction == norm_v(sub_v(to@, from@)),
            r.wf(),
    {
        Ray { origin: from, direction: to.sub(from).normalize() }
    }

    pub fn at(&self, t: i64) -> (p: Vec3)
        requires
            self.wf(),
            fp_abs(t as int) <= T_MAX as int,
        ensures
            p@ == ray_at(self@, t as int),
            in_range(p@, POS_MAX as int),
    {
        proof {
            lemma_scale_bound(t as int, self@.direction, T_MAX as int, DIR_MAX as int);
        }
        self.origin.add(self.direction.scale(t))
    }
}

/// Mathematical view of an intersection record.
pub struct IV {
    pub position: V3,
    pub normal: V3,
}

/// A surface hit: world-space position and (normalized) shading normal.
#[derive(Clone, Copy, Debug, PartialEq, Eq, Structural)]
pub struct Intersection {
    pub position: Vec3,
    pub normal: Vec3,
}

impl View for Intersection {
    type V = IV;

    open spec fn view(&self) -> IV {
        IV { position: self.position@, normal: self.normal@ }
    }
}

pub open spec fn inter_wf(i: IV) -> bool {
    in_range(i.position, POS_MAX as int) && in_range(i.normal, DIR_MAX as int)
}

} // verus!
