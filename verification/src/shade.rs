//! The recursive Whitted-style shading integrator.
//!
//! For the nearest hit of a ray, each light in turn is tested with a
//! hard shadow ray (any occluder anywhere along the ray blocks the
//! light — there is no distance check against the light itself; that is
//! the literal contract). For an unoccluded light, a reflective
//! material first adds one unattenuated mirror bounce (bounded by
//! `max_depth`), then the diffuse term `max(0, L.N) * color` is added,
//! every channel saturating at 1.0. The diffuse direction uses the
//! light currently being processed.
//!
//! Secondary rays are only cast while their origins stay inside the
//! representable coordinate range (`RAY_MAX`); geometry within the
//! world-space bound never comes near that guard.

use vstd::prelude::*;
use crate::fp::{
    fmul, BIAS, REFL_BIAS, RAY_MAX, DIR_MAX, POS_MAX,
    lemma_fmul_nonneg, lemma_fmul_bound, fp_mul,
};
use crate::vec3::{Vec3, V3, in_range, add_v, sub_v, scale_v, dot_v, norm_v, lemma_dot_bound};
use crate::types::{Ray, RayV};
use crate::image::{Color, CV, add_c, black_c, color_wf};
use crate::scene::{Scene, SceneIntersection, SIV, scene_hit};

verus! {

/// Mirror reflection of the view vector about the normal:
/// `2 (V.N) N - V`.
pub open spec fn reflect_dir(v: V3, n: V3) -> V3 {
    sub_v(scale_v(2 * dot_v(v, n), n), v)
}

/// The shadow ray for a hit and a light: origin biased off the surface
/// along the normal, aimed at the light.
pub open spec fn shadow_ray_for(si: SIV, light: V3) -> RayV {
    let biased = add_v(si.position, scale_v(BIAS as int, si.normal));
    RayV { origin: biased, direction: norm_v(sub_v(light, biased)) }
}

/// The color returned for a ray: black on a miss, otherwise the fold
/// of the per-light contributions at the nearest hit.
pub open spec fn spec_shoot(scene: Scene, ray: RayV, depth: int, max_depth: int) -> CV
    decreases max_depth - depth, 1int, 0int,
{
    if depth > max_depth {
        black_c()
    } else {
        match scene_hit(scene, ray) {
            Option::None => black_c(),
            Option::Some(si) => {
                let vv = norm_v(sub_v(ray.origin, si.position));
                spec_lights(scene, si, vv, scene.lights@.len() as int, depth, max_depth)
            },
        }
    }
}

/// Fold of the contributions of the first `n` lights: nothing for an
/// occluded light; otherwise an optional mirror bounce, then the
/// diffuse term, added with saturation.
pub open spec fn spec_lights(
    scene: Scene,
    si: SIV,
    vv: V3,
    n: int,
    depth: int,
    max_depth: int,
) -> CV
    decreases max_depth - depth, 0int, n,
{
    if n <= 0 || depth > max_depth {
        black_c()
    } else {
        let prev = spec_lights(scene, si, vv, n - 1, depth, max_depth);
        let light = scene.lights@[n - 1]@;
        let biased = add_v(si.position, scale_v(BIAS as int, si.normal));
        if !in_range(biased, RAY_MAX as int) {
            prev
        } else if scene_hit(scene, shadow_ray_for(si, light)) is Some {
            prev
        } else {
            let with_refl = if si.material.reflective && depth < max_depth {
                let rd = reflect_dir(vv, si.normal);
                let rorigin = add_v(si.position, scale_v(REFL_BIAS as int, rd));
                if in_range(rorigin, RAY_MAX as int) {
                    add_c(
                        prev,
                        spec_shoot(
                            scene,
                            RayV { origin: rorigin, direction: norm_v(rd) },
                            depth + 1,
                            max_depth,
                        ),
                    )
                } else {
                    prev
                }
            } else {
                prev
            };
            let ldir = norm_v(sub_v(light, si.position));
            let inten = if dot_v(ldir, si.normal) > 0 {
                dot_v(ldir, si.normal)
            } else {
                0
            };
            add_c(
                with_refl,
                CV {
                    r: fmul(inten, si.material.color@.r),
                    g: fmul(inten, si.material.color@.g),
                    b: fmul(inten, si.material.color@.b),
                },
            )
        }
    }
}

/// Shade one ray: exactly `spec_shoot`, with channels in `[0, 1]`.
/// Reflection recursion is bounded by `max_depth`, so rendering always
/// terminates; rays that never reach an unoccluded light within the
/// bound yield black.
pub fn shoot_ray(scene: &Scene, ray: Ray, depth: u32, max_depth: u32) -> (c: Color)
    requires
        scene.wf(),
        ray.wf(),
        depth <= max_depth,
    ensures
        c@ == spec_shoot(*scene, ray@, depth as int, max_depth as int),
        color_wf(c@),
    decreases max_depth - depth,
{
    match scene.intersects(ray) {
        None => Color::black(),
        Some(inter) => {
            let vv: Vec3 = ray.origin.sub(inter.position).normalize();
            let mut color: Color = Color::black();
            let nl: usize = scene.lights.len();
            let mut li: usize = 0;
            while li < nl
                invariant
                    scene.wf(),
                    ray.wf(),
                    depth <= max_depth,
                    li <= nl,
                    nl as int == scene.lights@.len(),
                    scene_hit(*scene, ray@) == Some(inter@),
                    in_range(inter@.position, POS_MAX as int),
                    in_range(inter@.normal, DIR_MAX as int),
                    inter.material.wf(),
                    vv@ == norm_v(sub_v(ray@.origin, inter@.position)),
                    in_range(vv@, DIR_MAX as int),
                    color@ == spec_lights(
                        *scene,
                        inter@,
                        vv@,
                        li as int,
                        depth as int,
                        max_depth as int,
                    ),
                    color_wf(color@),
                decreases nl - li,
            {
                let light: Vec3 = scene.lights[li];
                let biased: Vec3 = inter.position.add(inter.normal.scale(BIAS));
                if biased.within(RAY_MAX) {
                    let sray: Ray = Ray::between(biased, light);
                    match scene.intersects(sray) {
                        Some(_) => {},
                        None => {
                            if inter.material.reflective && depth < max_depth {
                                proof {
                                    lemma_dot_bound(
                                        vv@,
                                        inter@.normal,
                                        DIR_MAX as int,
                                        DIR_MAX as int,
                                    );
                                }
                                let vn: i64 = vv.dot(inter.normal);
                                proof {
                                    crate::vec3::lemma_scale_bound(
                                        2 * (vn as int),
                                        inter@.normal,
                                        0x18_0000,
                                        DIR_MAX as int,
                                    );
                                }
                                let rd: Vec3 = inter.normal.scale(2 * vn).sub(vv);
                                let rorigin: Vec3 = inter.position.add(rd.scale(REFL_BIAS));
                                if rorigin.within(RAY_MAX) {
                                    let rray: Ray = Ray::new(rorigin, rd);
                                    let rc: Color = shoot_ray(scene, rray, depth + 1, max_depth);
                                    color = color.add(rc);
                                }
                            }
                            let ldir: Vec3 = light.sub(inter.position).normalize();
                            proof {
                                lemma_dot_bound(ldir@, inter@.normal, DIR_MAX as int, DIR_MAX as int);
                            }
                            let ln: i64 = ldir.dot(inter.normal);
                            let inten: i64 = if ln > 0 {
                                ln
                            } else {
                                0
                            };
                            proof {
                                lemma_fmul_nonneg(inten as int, inter.material.color@.r);
                                lemma_fmul_nonneg(inten as int, inter.material.color@.g);
                                lemma_fmul_nonneg(inten as int, inter.material.color@.b);
                                lemma_fmul_bound(inten as int, inter.material.color@.r, 0xc_0000, 0x1_0000);
                                lemma_fmul_bound(inten as int, inter.material.color@.g, 0xc_0000, 0x1_0000);
                                lemma_fmul_bound(inten as int, inter.material.color@.b, 0xc_0000, 0x1_0000);
                            }
                            let dif: Color = Color::new(
                                fp_mul(inten, inter.material.color.r),
                                fp_mul(inten, inter.material.color.g),
                                fp_mul(inten, inter.material.color.b),
                            );
                            color = color.add(dif);
                        },
                    }
                }
                li = li + 1;
            }
            color
        },
    }
}

/// Shooting any ray into a scene with no objects yields black.
pub proof fn lemma_empty_scene_black(scene: Scene, ray: RayV, depth: int, max_depth: int)
    requires
        scene.objects@.len() == 0,
    ensures
        spec_shoot(scene, ray, depth, max_depth) == black_c(),
{
}

/// With a single unoccluded light and a non-reflective material, the
/// shaded color is exactly the saturated diffuse term: channel-wise
/// `min(1, max(0, L.N) * color)`.
pub proof fn lemma_single_unoccluded_light(scene: Scene, ray: RayV, si: SIV, depth: int, max_depth: int)
    requires
        depth <= max_depth,
        scene_hit(scene, ray) == Some(si),
        scene.lights@.len() == 1,
        !si.material.reflective,
        in_range(add_v(si.position, scale_v(BIAS as int, si.normal)), RAY_MAX as int),
        scene_hit(scene, shadow_ray_for(si, scene.lights@[0]@)) is None,
    ensures
        spec_shoot(scene, ray, depth, max_depth) == ({
            let ldir = norm_v(sub_v(scene.lights@[0]@, si.position));
            let inten = if dot_v(ldir, si.normal) > 0 {
                dot_v(ldir, si.normal)
            } else {
                0
            };
            add_c(
                black_c(),
                CV {
                    r: fmul(inten, si.material.color@.r),
                    g: fmul(inten, si.material.color@.g),
                    b: fmul(inten, si.material.color@.b),
                },
            )
        }),
{
    let vv = norm_v(sub_v(ray.origin, si.position));
    assert(spec_lights(scene, si, vv, 0, depth, max_depth) == black_c());
}

/// A hit reported by the scene carries the material of one of its
/// objects; if every material's color is black, so is the hit's.
proof fn lemma_scene_hit_black_material(objs: Seq<crate::object::Object>, ray: RayV, n: int)
    requires
        forall|i: int|
            0 <= i < objs.len() ==> (#[trigger] objs[i]).material.color@ == black_c(),
        n <= objs.len(),
    ensures
        crate::scene::scene_hit_upto(objs, ray, n) matches Some(si) ==> si.material.color@
            == black_c(),
    decreases n,
{
    if n > 0 {
        lemma_scene_hit_black_material(objs, ray, n - 1);
    }
}

/// A scene all of whose materials are black shades every ray to black,
/// at every depth: the mirror recursion is bounded by `max_depth`, and
/// a ray that never reaches a surface with a non-black color can only
/// accumulate black.
pub proof fn lemma_all_black_scene_shades_black(
    scene: Scene,
    ray: RayV,
    depth: int,
    max_depth: int,
)
    requires
        forall|i: int|
            0 <= i < scene.objects@.len() ==> (#[trigger] scene.objects@[i]).material.color@
                == black_c(),
    ensures
        spec_shoot(scene, ray, depth, max_depth) == black_c(),
    decreases max_depth - depth, 1int, 0int,
{
    if depth <= max_depth {
        match scene_hit(scene, ray) {
            Option::None => {},
            Option::Some(si) => {
                lemma_scene_hit_black_material(scene.objects@, ray, scene.objects@.len() as int);
                let vv = norm_v(sub_v(ray.origin, si.position));
                lemma_all_black_lights(
                    scene,
                    si,
                    vv,
                    scene.lights@.len() as int,
                    depth,
                    max_depth,
                );
            },
        }
    }
}

proof fn lemma_all_black_lights(scene: Scene, si: SIV, vv: V3, n: int, depth: int, max_depth: int)
    requires
        forall|i: int|
            0 <= i < scene.objects@.len() ==> (#[trigger] scene.objects@[i]).material.color@
                == black_c(),
        si.material.color@ == black_c(),
    ensures
        spec_lights(scene, si, vv, n, depth, max_depth) == black_c(),
    decreases max_depth - depth, 0int, n,
{
    if n > 0 && depth <= max_depth {
        lemma_all_black_lights(scene, si, vv, n - 1, depth, max_depth);
        let light = scene.lights@[n - 1]@;
        let biased = add_v(si.position, scale_v(crate::fp::BIAS as int, si.normal));
        if in_range(biased, RAY_MAX as int) && !(scene_hit(scene, shadow_ray_for(si, light))
            is Some) {
            if si.material.reflective && depth < max_depth {
                let rd = reflect_dir(vv, si.normal);
                let rorigin = add_v(si.position, scale_v(REFL_BIAS as int, rd));
                if in_range(rorigin, RAY_MAX as int) {
                    lemma_all_black_scene_shades_black(
                        scene,
                        RayV { origin: rorigin, direction: norm_v(rd) },
                        depth + 1,
                        max_depth,
                    );
                }
            }
            let ldir = norm_v(sub_v(light, si.position));
            let inten = if dot_v(ldir, si.normal) > 0 {
                dot_v(ldir, si.normal)
            } else {
                0
            };
            crate::fp::lemma_fmul_zero(inten);
        }
    }
}

/// An occluded light contributes nothing: when the shadow ray toward
/// light `n - 1` hits anything, the fold over `n` lights equals the
/// fold over the first `n - 1`.
pub proof fn lemma_occluded_light_no_contribution(
    scene: Scene,
    si: SIV,
    vv: V3,
    n: int,
    depth: int,
    max_depth: int,
)
    requires
        0 < n <= scene.lights@.len(),
        scene_hit(scene, shadow_ray_for(si, scene.lights@[n - 1]@)) is Some,
    ensures
        spec_lights(scene, si, vv, n, depth, max_depth) == spec_lights(
            scene,
            si,
            vv,
            n - 1,
            depth,
            max_depth,
        ),
{
}

} // verus!
