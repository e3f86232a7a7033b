use whitted::fp::ONE;
use whitted::image::{Color, Image};
use whitted::material::Material;
use whitted::mesh::Mesh;
use whitted::object::{Object, Transform};
use whitted::vec3::Vec3;

fn tri_arrays() -> (Vec<i64>, Vec<i64>, Vec<usize>) {
    let positions: Vec<i64> = vec![0, 0, 0, ONE, 0, 0, 0, ONE, 0];
    let normals: Vec<i64> = vec![0, 0, ONE, 0, 0, ONE, ONE, 0, 0];
    let indices: Vec<usize> = vec![0, 1, 2];
    (positions, normals, indices)
}

#[test]
fn from_arrays_builds_vertices_and_faces() {
    let (positions, normals, indices) = tri_arrays();
    let mesh = Mesh::from_arrays(&positions, &normals, &indices).unwrap();
    assert_eq!(mesh.vertices.len(), 3);
    assert_eq!(mesh.faces.len(), 1);
    assert_eq!(mesh.vertices[1].position, Vec3::new(ONE, 0, 0));
    // normals are normalized on ingestion; these are already unit.
    assert_eq!(mesh.vertices[2].normal, Vec3::new(ONE, 0, 0));
    assert_eq!(mesh.faces[0].v1_off, 0);
    assert_eq!(mesh.faces[0].v2_off, 1);
    assert_eq!(mesh.faces[0].v3_off, 2);
}

#[test]
fn from_arrays_rejects_mismatched_lengths() {
    let (positions, mut normals, indices) = tri_arrays();
    normals.pop();
    assert!(Mesh::from_arrays(&positions, &normals, &indices).is_none());
}

#[test]
fn from_arrays_rejects_out_of_range_index() {
    let (positions, normals, _) = tri_arrays();
    let indices: Vec<usize> = vec![0, 1, 3];
    assert!(Mesh::from_arrays(&positions, &normals, &indices).is_none());
}

#[test]
fn from_arrays_rejects_ragged_triples() {
    let (mut positions, mut normals, indices) = tri_arrays();
    positions.push(ONE);
    normals.push(ONE);
    assert!(Mesh::from_arrays(&positions, &normals, &indices).is_none());
}

#[test]
fn identity_object_reproduces_mesh_exactly() {
    // an identity-transform instance carries its mesh's vertex
    // positions and (unnormalized) normals over bit for bit.
    let (positions, normals, indices) = tri_arrays();
    let mesh = Mesh::from_arrays(&positions, &normals, &indices).unwrap();
    let mat = Material { color: Color::new(ONE, ONE, ONE), opaque: true, reflective: false };
    let obj = Object::new(&mesh, Transform::identity(), mat);
    assert_eq!(obj.vertices.len(), mesh.vertices.len());
    for i in 0..mesh.vertices.len() {
        assert_eq!(obj.vertices[i].position, mesh.vertices[i].position);
        assert_eq!(obj.vertices[i].normal, mesh.vertices[i].normal);
    }
    assert_eq!(obj.faces.len(), 1);
    assert_eq!(obj.triangles.len(), 1);
    assert_eq!(obj.triangles[0].v2.position, mesh.vertices[1].position);
}

#[test]
fn translation_moves_positions_not_normals() {
    let (positions, normals, indices) = tri_arrays();
    let mesh = Mesh::from_arrays(&positions, &normals, &indices).unwrap();
    let mat = Material { color: Color::new(ONE, ONE, ONE), opaque: true, reflective: false };
    let shift = Vec3::new(2 * ONE, 0, -3 * ONE);
    let obj = Object::new(&mesh, Transform::from_translation(shift), mat);
    assert_eq!(obj.vertices[1].position, Vec3::new(3 * ONE, 0, -3 * ONE));
    assert_eq!(obj.vertices[1].normal, mesh.vertices[1].normal);
}

#[test]
fn color_addition_saturates_at_one() {
    let a = Color::new(3 * ONE / 4, ONE / 2, 0);
    let b = Color::new(ONE / 2, ONE / 4, ONE / 4);
    let c = a.add(b);
    assert_eq!(c, Color::new(ONE, 3 * ONE / 4, ONE / 4));
    let mut d = Color::black();
    d.add_assign(Color::new(ONE, ONE, 0));
    d.add_assign(Color::new(ONE, 0, 0));
    assert_eq!(d, Color::new(ONE, ONE, 0));
}

#[test]
fn color_from_vec_copies_channels() {
    let c = Color::from_vec(Vec3::new(1, 2, 3));
    assert_eq!(c, Color::new(1, 2, 3));
}

#[test]
fn image_starts_black_and_takes_pixels() {
    let mut img = Image::new(4, 3);
    assert_eq!(img.data.len(), 12);
    assert!(img.data.iter().all(|c| *c == Color::black()));
    img.set_pixel(2, 1, Color::new(ONE, 0, 0));
    assert_eq!(img.data[1 * 4 + 2], Color::new(ONE, 0, 0));
    assert_eq!(img.data[0], Color::black());
}
