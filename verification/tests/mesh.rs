//! Mesh construction and the flattened position view. Coordinates are
//! fixed-point micro-units: `1_000_000` is one unit.

use soft_mesh::mesh::{Mesh, MeshError};
use soft_mesh::vec3::Vec3;

#[test]
fn lib_test_mesh_new_valid() {
    let positions: Vec<i64> = vec![0, 0, 0, 1_000_000, 0, 0];
    let indices: Vec<u32> = vec![0, 1];
    let mesh = Mesh::new(&positions, &indices).unwrap();
    assert_eq!(mesh.vertices.len(), 2);
    assert_eq!(mesh.indices.len(), 2);
    assert_eq!(mesh.vertices[1].position, Vec3::new(1_000_000, 0, 0));
}

#[test]
fn lib_test_mesh_new_invalid_positions() {
    let positions: Vec<i64> = vec![0, 0, 0, 1_000_000, 0]; // Invalid length
    let indices: Vec<u32> = vec![0, 1];
    let result = Mesh::new(&positions, &indices);
    assert!(result.is_err());
}

#[test]
fn lib_test_get_vertex_positions_flat() {
    let positions: Vec<i64> = vec![0, 1_000_000, 2_000_000, 3_000_000, 4_000_000, 5_000_000];
    let indices: Vec<u32> = vec![0, 1];
    let mesh = Mesh::new(&positions, &indices).unwrap();
    let flat_positions = mesh.get_vertex_positions_flat();
    assert_eq!(flat_positions, positions);
}

#[test]
fn mesh_test_mesh_new_valid() {
    let positions: Vec<i64> = vec![0, 0, 0, 1_000_000, 0, 0];
    let indices: Vec<u32> = vec![0, 1];
    let mesh = Mesh::new(&positions, &indices).unwrap();
    assert_eq!(mesh.vertices.len(), 2);
    assert_eq!(mesh.indices.len(), 2);
    assert_eq!(mesh.vertices[1].position, Vec3::new(1_000_000, 0, 0));
}

#[test]
fn mesh_test_mesh_new_invalid_positions() {
    let positions: Vec<i64> = vec![0, 0, 0, 1_000_000, 0]; // Invalid length
    let indices: Vec<u32> = vec![0, 1];
    let result = Mesh::new(&positions, &indices);
    assert!(result.is_err());
}

#[test]
fn mesh_test_get_vertex_positions_flat() {
    let positions: Vec<i64> = vec![0, 1_000_000, 2_000_000, 3_000_000, 4_000_000, 5_000_000];
    let indices: Vec<u32> = vec![0, 1];
    let mesh = Mesh::new(&positions, &indices).unwrap();
    let flat_positions = mesh.get_vertex_positions_flat();
    assert_eq!(flat_positions, positions);
}

#[test]
fn test_mesh_new_reports_invalid_topology() {
    let positions: Vec<i64> = vec![0, 0, 0, 1_000_000];
    let indices: Vec<u32> = vec![];
    assert!(matches!(Mesh::new(&positions, &indices), Err(MeshError::InvalidTopology)));
}

#[test]
fn test_mesh_new_reports_index_out_of_range() {
    let positions: Vec<i64> = vec![0, 0, 0];
    let indices: Vec<u32> = vec![0, 1, 2];
    assert!(matches!(Mesh::new(&positions, &indices), Err(MeshError::IndexOutOfRange)));
}

#[test]
fn test_mesh_new_empty() {
    let positions: Vec<i64> = vec![];
    let indices: Vec<u32> = vec![];
    let mesh = Mesh::new(&positions, &indices).unwrap();
    assert_eq!(mesh.vertices.len(), 0);
    assert_eq!(mesh.get_vertex_positions_flat().len(), 0);
}

#[test]
fn test_new_vertex_is_at_rest_with_unit_mass() {
    let positions: Vec<i64> = vec![1_000_000, 2_000_000, 3_000_000];
    let indices: Vec<u32> = vec![];
    let mesh = Mesh::new(&positions, &indices).unwrap();
    let v = mesh.vertices[0];
    assert_eq!(v.position, Vec3::new(1_000_000, 2_000_000, 3_000_000));
    assert_eq!(v.old_position, v.position);
    assert_eq!(v.acceleration, Vec3::zeros());
    assert_eq!(v.mass, 1_000_000);
}

#[test]
fn test_add() {
    assert_eq!(soft_mesh::add(2, 3), 5);
}
