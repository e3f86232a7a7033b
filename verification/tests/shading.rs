use whitted::fp::ONE;
use whitted::image::Color;
use whitted::material::Material;
use whitted::mesh::Mesh;
use whitted::object::{Object, Transform};
use whitted::scene::Scene;
use whitted::shade::shoot_ray;
use whitted::types::Ray;
use whitted::vec3::Vec3;

/// A one-triangle mesh spanning the z = 0 plane around the origin,
/// normals +z, lifted to world space by a pure translation in z.
fn floor_object(z: i64, material: Material) -> Object {
    let positions: Vec<i64> = vec![
        -4 * ONE, -4 * ONE, 0,
        4 * ONE, -4 * ONE, 0,
        0, 4 * ONE, 0,
    ];
    let normals: Vec<i64> = vec![0, 0, ONE, 0, 0, ONE, 0, 0, ONE];
    let indices: Vec<usize> = vec![0, 1, 2];
    let mesh = Mesh::from_arrays(&positions, &normals, &indices).unwrap();
    Object::new(&mesh, Transform::from_translation(Vec3::new(0, 0, z)), material)
}

/// A small downward-facing mirror triangle around (0, 0, z).
fn ceiling_object(z: i64, material: Material) -> Object {
    let positions: Vec<i64> = vec![
        -2 * ONE, -2 * ONE, 0,
        2 * ONE, -2 * ONE, 0,
        0, 2 * ONE, 0,
    ];
    let normals: Vec<i64> = vec![0, 0, -ONE, 0, 0, -ONE, 0, 0, -ONE];
    let indices: Vec<usize> = vec![0, 1, 2];
    let mesh = Mesh::from_arrays(&positions, &normals, &indices).unwrap();
    Object::new(&mesh, Transform::from_translation(Vec3::new(0, 0, z)), material)
}

fn red_matte() -> Material {
    Material { color: Color::new(ONE, 0, 0), opaque: true, reflective: false }
}

fn black_mirror() -> Material {
    Material { color: Color::black(), opaque: true, reflective: true }
}

fn down_ray() -> Ray {
    Ray::new(Vec3::new(0, 0, 4 * ONE), Vec3::new(0, 0, -ONE))
}

#[test]
fn empty_scene_shades_black() {
    let scene = Scene::new();
    assert_eq!(shoot_ray(&scene, down_ray(), 0, 5), Color::black());
    let sideways = Ray::new(Vec3::new(ONE, 2 * ONE, 0), Vec3::new(ONE, 0, 0));
    assert_eq!(shoot_ray(&scene, sideways, 0, 5), Color::black());
}

#[test]
fn scene_reports_the_single_hit_object() {
    let mut scene = Scene::new();
    scene.objects.push(floor_object(0, red_matte()));
    scene.objects.push(ceiling_object(8 * ONE, black_mirror()));
    // straight down the z axis: only the floor is hit (the ceiling
    // faces the other side of the origin but sits above the ray start).
    let ray = down_ray();
    let hit = scene.intersects(ray).unwrap();
    assert_eq!(hit.object_id, 0);
    assert_eq!(hit.material.color, Color::new(ONE, 0, 0));
    assert_eq!(hit.position, Vec3::new(0, 0, 0));
    assert_eq!(hit.normal, Vec3::new(0, 0, ONE));
}

#[test]
fn nearest_object_wins() {
    let mut scene = Scene::new();
    scene.objects.push(floor_object(0, red_matte()));
    scene.objects.push(
        floor_object(2 * ONE, Material { color: Color::new(0, ONE, 0), opaque: true, reflective: false }),
    );
    let hit = scene.intersects(down_ray()).unwrap();
    // the plane at z = 2 is nearer to the origin at z = 4.
    assert_eq!(hit.object_id, 1);
    assert_eq!(hit.position, Vec3::new(0, 0, 2 * ONE));
}

#[test]
fn unoccluded_light_gives_exact_diffuse_term() {
    // single matte red floor, light straight above the hit point:
    // intensity is exactly 1, so the result is exactly (1, 0, 0).
    let mut scene = Scene::new();
    scene.objects.push(floor_object(0, red_matte()));
    scene.lights.push(Vec3::new(0, 0, 8 * ONE));
    assert_eq!(shoot_ray(&scene, down_ray(), 0, 5), Color::new(ONE, 0, 0));
}

#[test]
fn two_lights_at_different_positions_contribute_differently() {
    let mut overhead = Scene::new();
    overhead.objects.push(floor_object(0, red_matte()));
    overhead.lights.push(Vec3::new(0, 0, 8 * ONE));
    let c1 = shoot_ray(&overhead, down_ray(), 0, 5);

    let mut angled = Scene::new();
    angled.objects.push(floor_object(0, red_matte()));
    angled.lights.push(Vec3::new(8 * ONE, 0, 8 * ONE));
    let c2 = shoot_ray(&angled, down_ray(), 0, 5);

    assert_eq!(c1.r, ONE);
    assert!(0 < c2.r && c2.r < ONE);
    assert_ne!(c1, c2);
}

#[test]
fn occluder_between_hit_and_light_zeroes_the_contribution() {
    // without the occluder the angled light contributes; with a small
    // opaque triangle across the shadow ray the whole contribution
    // (not some attenuated part) disappears.
    let mut open_scene = Scene::new();
    open_scene.objects.push(floor_object(0, red_matte()));
    open_scene.lights.push(Vec3::new(8 * ONE, 0, 8 * ONE));
    let lit = shoot_ray(&open_scene, down_ray(), 0, 5);
    assert!(lit.r > 0);

    let mut blocked = Scene::new();
    blocked.objects.push(floor_object(0, red_matte()));
    // occluder: a small triangle in the z = 4 plane around x = 4,
    // straddling the shadow ray, well away from the primary ray.
    let positions: Vec<i64> = vec![
        3 * ONE, -ONE, 0,
        5 * ONE, -ONE, 0,
        4 * ONE, ONE, 0,
    ];
    let normals: Vec<i64> = vec![0, 0, -ONE, 0, 0, -ONE, 0, 0, -ONE];
    let indices: Vec<usize> = vec![0, 1, 2];
    let mesh = Mesh::from_arrays(&positions, &normals, &indices).unwrap();
    blocked.objects.push(Object::new(
        &mesh,
        Transform::from_translation(Vec3::new(0, 0, 4 * ONE)),
        Material { color: Color::new(0, 0, ONE), opaque: true, reflective: false },
    ));
    blocked.lights.push(Vec3::new(8 * ONE, 0, 8 * ONE));
    let shadowed = shoot_ray(&blocked, down_ray(), 0, 5);
    assert_eq!(shadowed, Color::black());
}

#[test]
fn facing_mirrors_terminate_and_shade_black() {
    // two black mirrors facing each other: the bounce chain stops at
    // max_depth and, with black materials, every ray shades to black.
    let mut scene = Scene::new();
    scene.objects.push(floor_object(0, black_mirror()));
    scene.objects.push(ceiling_object(4 * ONE, black_mirror()));
    // a light off to the side, visible from both mirrors, so the
    // bounce chain really ping-pongs until the depth bound.
    scene.lights.push(Vec3::new(8 * ONE, 0, 2 * ONE));
    let ray = Ray::new(Vec3::new(0, 0, 2 * ONE), Vec3::new(0, 0, -ONE));
    assert_eq!(shoot_ray(&scene, ray, 0, 8), Color::black());
}

#[test]
fn mirror_adds_the_reflected_surface_color() {
    // a mirror floor under a red ceiling: the primary hit on the floor
    // is black itself, but the mirror bounce reaches the red ceiling,
    // so the result carries red and nothing else.
    let mut scene = Scene::new();
    scene.objects.push(floor_object(0, black_mirror()));
    scene.objects.push(ceiling_object(4 * ONE, red_matte()));
    scene.lights.push(Vec3::new(8 * ONE, 0, 2 * ONE));
    let ray = Ray::new(Vec3::new(0, 0, 2 * ONE), Vec3::new(0, 0, -ONE));
    let c = shoot_ray(&scene, ray, 0, 4);
    assert!(c.r > 0);
    assert_eq!(c.g, 0);
    assert_eq!(c.b, 0);
}

#[test]
fn tie_on_distance_keeps_the_earlier_object() {
    let mut scene = Scene::new();
    scene.objects.push(floor_object(0, red_matte()));
    scene.objects.push(
        floor_object(0, Material { color: Color::new(0, ONE, 0), opaque: true, reflective: false }),
    );
    let hit = scene.intersects(down_ray()).unwrap();
    assert_eq!(hit.object_id, 0);
    assert_eq!(hit.material.color, Color::new(ONE, 0, 0));
}

#[test]
fn depth_limit_stops_reflection() {
    // a mirror floor under a light: at depth == max_depth the mirror
    // bounce is skipped and only the diffuse term (black) remains.
    let mut scene = Scene::new();
    scene.objects.push(floor_object(0, black_mirror()));
    scene.lights.push(Vec3::new(0, 0, 8 * ONE));
    assert_eq!(shoot_ray(&scene, down_ray(), 5, 5), Color::black());
}
