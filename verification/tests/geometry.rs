use whitted::fp::ONE;
use whitted::shape::{Shape, Sphere, Triangle, Vertex, Point2};
use whitted::types::Ray;
use whitted::util::{solve_quadratic_equation, EqSolution};
use whitted::vec3::Vec3;

fn vert(p: Vec3, n: Vec3) -> Vertex {
    Vertex { position: p, normal: n }
}

fn unit_z() -> Vec3 {
    Vec3::new(0, 0, ONE)
}

/// A triangle in the z = 0 plane around the origin, normals +z.
fn base_triangle() -> Triangle {
    Triangle::new(
        vert(Vec3::new(-4 * ONE, -4 * ONE, 0), unit_z()),
        vert(Vec3::new(4 * ONE, -4 * ONE, 0), unit_z()),
        vert(Vec3::new(0, 4 * ONE, 0), unit_z()),
    )
}

#[test]
fn test_solve_quadratic_equation() {
    assert!(
        solve_quadratic_equation(ONE, -2 * ONE, -3 * ONE) == EqSolution::Two(-ONE, 3 * ONE)
    );
    assert!(solve_quadratic_equation(3 * ONE, -6 * ONE, 3 * ONE) == EqSolution::One(ONE));
    assert!(solve_quadratic_equation(ONE, ONE, ONE) == EqSolution::Zero);
}

#[test]
fn sphere_hit_from_outside_is_distance_minus_radius() {
    // center at the origin, radius 2; ray from (0, 0, 4) straight down
    // the z axis: the closest hit is at t = 4 - 2, exactly.
    let s = Sphere { center: Vec3::new(0, 0, 0), radius: 2 * ONE };
    let ray = Ray::new(Vec3::new(0, 0, 4 * ONE), Vec3::new(0, 0, -ONE));
    assert_eq!(s.get_closest_hit(ray), Some(2 * ONE));
}

#[test]
fn sphere_hit_from_inside_returns_far_root() {
    let s = Sphere { center: Vec3::new(0, 0, 0), radius: 2 * ONE };
    let ray = Ray::new(Vec3::new(ONE, 0, 0), Vec3::new(ONE, 0, 0));
    // origin is strictly inside: the far root t = 1 comes back.
    assert_eq!(s.get_closest_hit(ray), Some(ONE));
}

#[test]
fn sphere_miss_returns_none() {
    let s = Sphere { center: Vec3::new(0, 0, 0), radius: ONE };
    let ray = Ray::new(Vec3::new(0, 4 * ONE, 4 * ONE), Vec3::new(0, 0, -ONE));
    assert_eq!(s.get_closest_hit(ray), None);
}

#[test]
fn sphere_normal_points_outward() {
    let s = Sphere { center: Vec3::new(0, 0, 0), radius: 2 * ONE };
    let n = s.normal(Vec3::new(0, 0, 2 * ONE));
    assert_eq!(n, unit_z());
}

#[test]
fn triangle_hit_straight_down() {
    let t = base_triangle();
    let ray = Ray::new(Vec3::new(0, 0, 4 * ONE), Vec3::new(0, 0, -ONE));
    assert_eq!(t.get_closest_hit(ray), Some(4 * ONE));
}

#[test]
fn parallel_ray_misses_triangle() {
    // direction lies in the triangle's plane: no hit, ever.
    let t = base_triangle();
    let ray = Ray::new(Vec3::new(0, 0, 2 * ONE), Vec3::new(ONE, 0, 0));
    assert_eq!(t.get_closest_hit(ray), None);
}

#[test]
fn ray_behind_triangle_misses() {
    // the plane is behind the origin along the direction: t < 0.
    let t = base_triangle();
    let ray = Ray::new(Vec3::new(0, 0, 2 * ONE), Vec3::new(0, 0, ONE));
    assert_eq!(t.get_closest_hit(ray), None);
}

#[test]
fn barycentric_weights_at_vertices_are_unit() {
    let t = Triangle::new(
        vert(Vec3::new(0, 0, 0), unit_z()),
        vert(Vec3::new(ONE, 0, 0), unit_z()),
        vert(Vec3::new(0, ONE, 0), unit_z()),
    );
    // x is v1's weight, y is v2's; v3's weight is 1 - x - y.
    assert_eq!(t.get_barycentric(Vec3::new(0, 0, 0)), Point2 { x: ONE, y: 0 });
    assert_eq!(t.get_barycentric(Vec3::new(ONE, 0, 0)), Point2 { x: 0, y: ONE });
    assert_eq!(t.get_barycentric(Vec3::new(0, ONE, 0)), Point2 { x: 0, y: 0 });
}

#[test]
fn interpolated_normal_at_vertex_is_stored_normal() {
    let nz = unit_z();
    let nx = Vec3::new(ONE, 0, 0);
    let t = Triangle::new(
        vert(Vec3::new(0, 0, 0), nx),
        vert(Vec3::new(ONE, 0, 0), nz),
        vert(Vec3::new(0, ONE, 0), nz),
    );
    assert_eq!(t.normal(Vec3::new(0, 0, 0)), nx);
    assert_eq!(t.normal(Vec3::new(ONE, 0, 0)), nz);
}

#[test]
fn aabb_spans_the_three_vertices() {
    let t = base_triangle();
    let bb = t.aabb();
    assert_eq!(bb.min, Vec3::new(-4 * ONE, -4 * ONE, 0));
    assert_eq!(bb.max, Vec3::new(4 * ONE, 4 * ONE, 0));
}

#[test]
fn ray_at_walks_the_direction() {
    let ray = Ray::new(Vec3::new(ONE, 0, 0), Vec3::new(0, ONE, 0));
    assert_eq!(ray.at(3 * ONE), Vec3::new(ONE, 3 * ONE, 0));
}

#[test]
fn ray_between_normalizes() {
    let ray = Ray::between(Vec3::new(0, 0, 0), Vec3::new(0, 5 * ONE, 0));
    assert_eq!(ray.direction, Vec3::new(0, ONE, 0));
}
