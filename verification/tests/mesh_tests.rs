use tilemesh::mesh::{Normal3, OutputMesh, Point2, Point3};
use tilemesh::normals::calculate_normals;

fn v3(x: i64, y: i64, z: i64) -> Point3 {
    Point3 { x, y, z }
}

fn zero_n() -> Normal3 {
    Normal3 { x: 0, y: 0, z: 0 }
}

#[test]
fn accumulator_offsets_second_batch() {
    let mut mesh = OutputMesh::new();

    // Batch A: one triangle over three vertices.
    let mut va = vec![v3(0, 0, 0), v3(1, 0, 0), v3(0, 0, 1)];
    let ia = vec![0usize, 1, 2];
    let mut ua = vec![Point2 { x: 0, y: 0 }; 3];
    let mut na = vec![zero_n(); 3];
    mesh.add_elements(&mut va, &ia, &mut ua, &mut na);

    // Batch B: two triangles over four vertices.
    let mut vb = vec![v3(5, 0, 0), v3(6, 0, 0), v3(6, 0, 1), v3(5, 0, 1)];
    let ib = vec![0usize, 1, 2, 0, 2, 3];
    let mut ub = vec![Point2 { x: 0, y: 0 }; 4];
    let mut nb = vec![zero_n(); 4];
    mesh.add_elements(&mut vb, &ib, &mut ub, &mut nb);

    assert_eq!(mesh.vertices.len(), 7);
    assert_eq!(mesh.indices.len(), 9);
    // Every index of batch B reappears shifted by batch A's vertex count.
    assert_eq!(&mesh.indices[3..], &[3, 4, 5, 3, 5, 6]);
    // The input buffers were drained into the accumulator.
    assert_eq!(va.len(), 0);
    assert_eq!(ua.len(), 0);
    assert_eq!(nb.len(), 0);
}

#[test]
fn flat_quad_normals_point_up() {
    // A flat quad in the XZ plane at height 2, both triangles wound so
    // their face normals point up: every vertex normal accumulates to a
    // positive multiple of the unit up vector.
    let vertices = vec![v3(0, 2, 0), v3(1, 2, 0), v3(1, 2, 1), v3(0, 2, 1)];
    let indices = vec![0usize, 2, 1, 0, 3, 2];
    let normals = calculate_normals(&vertices, &indices);
    assert_eq!(normals.len(), 4);
    for n in &normals {
        assert_eq!(n.x, 0);
        assert_eq!(n.z, 0);
        assert!(n.y > 0);
    }
    // Shared vertices accumulate both triangles' contributions.
    assert_eq!(normals[0], Normal3 { x: 0, y: 2, z: 0 });
    assert_eq!(normals[1], Normal3 { x: 0, y: 1, z: 0 });
    assert_eq!(normals[2], Normal3 { x: 0, y: 2, z: 0 });
    assert_eq!(normals[3], Normal3 { x: 0, y: 1, z: 0 });
}

#[test]
fn unreferenced_vertex_keeps_zero_normal() {
    let vertices = vec![v3(0, 0, 0), v3(1, 0, 0), v3(0, 0, 1), v3(9, 9, 9)];
    let indices = vec![0usize, 2, 1];
    let normals = calculate_normals(&vertices, &indices);
    assert_eq!(normals[3], zero_n());
    assert_ne!(normals[0], zero_n());
}

#[test]
fn tiny_meshes_get_zero_normals() {
    // The calculator short-circuits below three vertices.
    let vertices = vec![v3(0, 0, 0), v3(1, 0, 0)];
    let indices = vec![];
    let normals = calculate_normals(&vertices, &indices);
    assert_eq!(normals, vec![zero_n(), zero_n()]);
}
