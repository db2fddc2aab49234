//! The interaction controller: construction, per-frame ticks, and drag
//! events. Quantities are fixed-point micro-units.

use soft_mesh::controller::FaceController;
use soft_mesh::mesh::MeshError;

#[test]
fn test_controller_new_invalid_topology() {
    let positions: Vec<i64> = vec![0, 0, 0, 1_000_000, 0];
    let indices: Vec<u32> = vec![0, 1];
    let r = FaceController::new(&positions, &indices);
    assert!(matches!(r, Err(MeshError::InvalidTopology)));
}

#[test]
fn test_controller_new_index_out_of_range() {
    let positions: Vec<i64> = vec![0, 0, 0];
    let indices: Vec<u32> = vec![0, 1, 2];
    let r = FaceController::new(&positions, &indices);
    assert!(matches!(r, Err(MeshError::IndexOutOfRange)));
}

#[test]
fn test_controller_new_caches_positions() {
    let positions: Vec<i64> = vec![0, 0, 0, 1_000_000, 0, 0, 0, 1_000_000, 0];
    let indices: Vec<u32> = vec![0, 1, 2];
    let c = FaceController::new(&positions, &indices).unwrap();
    assert_eq!(c.get_vertex_count(), 3);
    assert_eq!(c.positions_view(), &positions);
}

#[test]
fn test_tick_free_fall_under_default_gravity() {
    // One free vertex at rest: with dt = 0.1 the default gravity of -9.81
    // contributes -9.81 * 0.1 * 0.1 = -0.0981 per step, accumulated as the
    // triangular sequence: -0.0981 after one step, three times that after
    // two.
    let positions: Vec<i64> = vec![0, 0, 0];
    let indices: Vec<u32> = vec![];
    let mut c = FaceController::new(&positions, &indices).unwrap();
    c.tick(100_000);
    assert_eq!(c.positions_view()[1], -98_100);
    c.tick(100_000);
    assert_eq!(c.positions_view()[1], -294_300);
}

#[test]
fn test_drag_tracks_coordinates_exactly() {
    // A dragged vertex sits exactly where the drag calls put it, whatever
    // gravity does meanwhile.
    let positions: Vec<i64> = vec![0, 0, 0];
    let indices: Vec<u32> = vec![];
    let mut c = FaceController::new(&positions, &indices).unwrap();
    c.on_mouse_down(0, 5_000_000, 4_000_000, 3_000_000);
    c.tick(10_000);
    assert_eq!(c.positions_view(), &vec![5_000_000, 4_000_000, 3_000_000]);
    c.on_mouse_move(6_000_000, 7_000_000, 8_000_000);
    c.tick(10_000);
    c.tick(10_000);
    assert_eq!(c.positions_view(), &vec![6_000_000, 7_000_000, 8_000_000]);
}

#[test]
fn test_drag_release_resumes_physics() {
    // Dragging leaves old_position stale, so releasing turns the drag jump
    // into throw velocity: grabbed at the origin and dropped at y = 1.0,
    // the vertex continues upward by the jump plus the gravity term
    // -9.81 * 0.01 * 0.01: y = 1.0 + 1.0 - 0.000981.
    let positions: Vec<i64> = vec![0, 0, 0];
    let indices: Vec<u32> = vec![];
    let mut c = FaceController::new(&positions, &indices).unwrap();
    c.on_mouse_down(0, 0, 1_000_000, 0);
    c.on_mouse_up();
    c.tick(10_000);
    assert_eq!(c.positions_view()[1], 1_999_019);
}

#[test]
fn test_drag_of_missing_vertex_is_ignored() {
    let positions: Vec<i64> = vec![0, 0, 0];
    let indices: Vec<u32> = vec![];
    let mut c = FaceController::new(&positions, &indices).unwrap();
    c.on_mouse_down(5, 9_000_000, 9_000_000, 9_000_000);
    c.tick(10_000);
    // Nothing was dragged: the vertex just falls by -9.81 * 0.01 * 0.01.
    assert_eq!(c.positions_view()[1], -981);
}

#[test]
fn test_mouse_move_without_drag_changes_nothing() {
    let positions: Vec<i64> = vec![0, 0, 0];
    let indices: Vec<u32> = vec![];
    let mut c = FaceController::new(&positions, &indices).unwrap();
    c.on_mouse_move(9_000_000, 9_000_000, 9_000_000);
    c.tick(10_000);
    assert_eq!(c.positions_view()[1], -981);
}
