//! The spring network and the per-step update. Quantities are fixed-point
//! micro-units: `1_000_000` is `1.0`, so the default stiffness `1000.0` is
//! `1_000_000_000` and the default time step `0.01` is `10_000`.

use soft_mesh::mesh::{Mesh, Vertex};
use soft_mesh::physics::{Physics, Spring};
use soft_mesh::vec3::Vec3;

fn create_test_mesh(positions: Vec<i64>, indices: Vec<u32>) -> Mesh {
    Mesh::new(&positions, &indices).unwrap()
}

fn vertex_at_rest(x: i64, y: i64, z: i64, mass: i64) -> Vertex {
    Vertex {
        position: Vec3::new(x, y, z),
        old_position: Vec3::new(x, y, z),
        acceleration: Vec3::zeros(),
        mass,
    }
}

#[test]
fn test_physics_new() {
    let physics = Physics::new();
    assert_eq!(physics.springs.len(), 0);
    assert_eq!(physics.time_step, 10_000);
    assert_eq!(physics.gravity, Vec3::new(0, -9_810_000, 0));
}

#[test]
fn test_init_springs_single_triangle() {
    let mesh = create_test_mesh(
        vec![0, 0, 0, 1_000_000, 0, 0, 0, 1_000_000, 0],
        vec![0, 1, 2],
    );
    let mut physics = Physics::new();
    physics.init_springs(&mesh);
    assert_eq!(physics.springs.len(), 3); // A triangle has 3 edges
}

#[test]
fn test_init_springs_shared_edge() {
    // Two triangles sharing an edge (0, 1)
    let mesh = create_test_mesh(
        vec![
            0, 0, 0, // 0
            1_000_000, 0, 0, // 1
            0, 1_000_000, 0, // 2
            1_000_000, 1_000_000, 0, // 3
        ],
        vec![0, 1, 2, 0, 3, 1],
    );
    let mut physics = Physics::new();
    physics.init_springs(&mesh);
    // Should be 5 springs: (0,1), (1,2), (2,0), (0,3), (3,1)
    assert_eq!(physics.springs.len(), 5);
}

#[test]
fn test_init_springs_canonical_order_and_rest_lengths() {
    let mesh = create_test_mesh(
        vec![0, 0, 0, 1_000_000, 0, 0, 0, 1_000_000, 0],
        vec![0, 1, 2],
    );
    let mut physics = Physics::new();
    physics.init_springs(&mesh);
    // Edges in discovery order, each with the smaller endpoint first.
    assert_eq!(physics.springs[0].vertex_a_index, 0);
    assert_eq!(physics.springs[0].vertex_b_index, 1);
    assert_eq!(physics.springs[0].rest_length, 1_000_000);
    assert_eq!(physics.springs[1].vertex_a_index, 1);
    assert_eq!(physics.springs[1].vertex_b_index, 2);
    // sqrt(2) in micro-units, rounded down.
    assert_eq!(physics.springs[1].rest_length, 1_414_213);
    assert_eq!(physics.springs[2].vertex_a_index, 0);
    assert_eq!(physics.springs[2].vertex_b_index, 2);
    assert_eq!(physics.springs[2].rest_length, 1_000_000);
    // The derived defaults: stiffness 1000.0, damping 10.0.
    assert_eq!(physics.springs[0].stiffness, 1_000_000_000);
    assert_eq!(physics.springs[0].damping, 10_000_000);
}

#[test]
fn test_update_spring_force() {
    let mut mesh = create_test_mesh(vec![0, 0, 0, 1_000_000, 0, 0], vec![]);
    let mut physics = Physics::new();
    physics.springs.push(Spring {
        vertex_a_index: 0,
        vertex_b_index: 1,
        rest_length: 500_000, // Spring is stretched
        stiffness: 100_000_000,
        damping: 0,
    });

    physics.update(&mut mesh, None);

    // Vertex 0 should have moved right, and vertex 1 left
    assert!(mesh.vertices[0].position.x > 0);
    assert!(mesh.vertices[1].position.x < 1_000_000);
}

#[test]
fn test_update_immovable_vertex() {
    let mut mesh = create_test_mesh(vec![0, 0, 0, 1_000_000, 0, 0], vec![]);
    mesh.vertices[0].mass = 0; // Make vertex 0 immovable

    let mut physics = Physics::new();
    physics.springs.push(Spring {
        vertex_a_index: 0,
        vertex_b_index: 1,
        rest_length: 500_000,
        stiffness: 100_000_000,
        damping: 0,
    });

    physics.update(&mut mesh, None);

    // Vertex 0 should not have moved
    assert_eq!(mesh.vertices[0].position.x, 0);
    // Vertex 1 should have moved
    assert!(mesh.vertices[1].position.x < 1_000_000);
}

#[test]
fn test_update_zero_distance_spring() {
    let mut mesh = create_test_mesh(vec![0, 0, 0, 0, 0, 0], vec![]);
    let mut physics = Physics::new();
    physics.springs.push(Spring {
        vertex_a_index: 0,
        vertex_b_index: 1,
        rest_length: 500_000,
        stiffness: 100_000_000,
        damping: 0,
    });

    // This must not fault on the degenerate distance: the coincident
    // spring applies no force at all.
    physics.update(&mut mesh, None);

    assert_eq!(mesh.vertices[0].position.x, 0);
    assert_eq!(mesh.vertices[1].position.x, 0);
}

#[test]
fn test_spring_force() {
    let mut mesh = Mesh {
        vertices: vec![
            vertex_at_rest(0, 0, 0, 1_000_000),
            vertex_at_rest(2_000_000, 0, 0, 1_000_000),
        ],
        indices: vec![],
    };
    let mut physics = Physics::new();
    physics.springs.push(Spring {
        vertex_a_index: 0,
        vertex_b_index: 1,
        rest_length: 1_000_000,
        stiffness: 100_000_000,
        damping: 0,
    });

    physics.update(&mut mesh, None);

    // The spring is stretched, so vertex 0 is pulled right and vertex 1
    // left. Run a second step with zero gravity so the accelerations hold
    // only the spring's contribution.
    physics.gravity = Vec3::zeros();
    physics.update(&mut mesh, None);

    assert!(mesh.vertices[0].acceleration.x > 0);
    assert!(mesh.vertices[1].acceleration.x < 0);
}

#[test]
fn test_verlet_integration() {
    let mut mesh = Mesh {
        vertices: vec![vertex_at_rest(0, 0, 0, 1_000_000)],
        indices: vec![],
    };
    let mut physics = Physics::new();
    physics.time_step = 100_000; // 0.1
    physics.gravity = Vec3::new(0, -10_000_000, 0); // -10.0

    physics.update(&mut mesh, None);

    // After 1st step:
    // pos = 0 + (0 - 0) + (0, -10, 0) * 0.1 * 0.1 = (0, -0.1, 0)
    assert_eq!(mesh.vertices[0].position.y, -100_000);

    physics.update(&mut mesh, None);

    // After 2nd step:
    // pos = -0.1 + (-0.1 - 0) + (0, -10, 0) * 0.1 * 0.1 = -0.3
    assert_eq!(mesh.vertices[0].position.y, -300_000);
}

#[test]
fn test_oscillation() {
    let mut mesh = Mesh {
        vertices: vec![
            vertex_at_rest(0, 0, 0, 0), // Pin this vertex
            vertex_at_rest(1_100_000, 0, 0, 1_000_000),
        ],
        indices: vec![],
    };
    let mut physics = Physics::new();
    physics.springs.push(Spring {
        vertex_a_index: 0,
        vertex_b_index: 1,
        rest_length: 1_000_000,
        stiffness: 100_000_000,
        damping: 0,
    });
    physics.gravity = Vec3::zeros();
    physics.time_step = 10_000; // 0.01

    // Initial position of vertex 1 is 1.1, rest length is 1.0.
    // It should move towards vertex 0.
    physics.update(&mut mesh, None);
    assert!(mesh.vertices[1].position.x < 1_100_000);

    // Let it run for a while, it should oscillate around the rest length.
    for _ in 0..100 {
        physics.update(&mut mesh, None);
    }
    // After 100 steps, it should have oscillated back and be on the other side.
    assert!(mesh.vertices[1].position.x < 1_000_000);
}

#[test]
fn test_update_exact_step() {
    // Two unit-mass vertices 2.0 apart on a spring of rest length 1.0 and
    // stiffness 100.0, no damping, no gravity: the stretch of 1.0 gives a
    // force of 100.0 toward the middle, so each acceleration is 100.0 and
    // each vertex moves 100.0 * 0.01 * 0.01 = 0.01 inward in one step.
    let mut mesh = Mesh {
        vertices: vec![
            vertex_at_rest(0, 0, 0, 1_000_000),
            vertex_at_rest(2_000_000, 0, 0, 1_000_000),
        ],
        indices: vec![],
    };
    let mut physics = Physics::new();
    physics.springs.push(Spring {
        vertex_a_index: 0,
        vertex_b_index: 1,
        rest_length: 1_000_000,
        stiffness: 100_000_000,
        damping: 0,
    });
    physics.gravity = Vec3::zeros();

    physics.update(&mut mesh, None);

    assert_eq!(mesh.vertices[0].acceleration, Vec3::new(100_000_000, 0, 0));
    assert_eq!(mesh.vertices[1].acceleration, Vec3::new(-100_000_000, 0, 0));
    assert_eq!(mesh.vertices[0].position, Vec3::new(10_000, 0, 0));
    assert_eq!(mesh.vertices[1].position, Vec3::new(1_990_000, 0, 0));
    assert_eq!(mesh.vertices[0].old_position, Vec3::new(0, 0, 0));
    assert_eq!(mesh.vertices[1].old_position, Vec3::new(2_000_000, 0, 0));
}

#[test]
fn test_update_pinned_vertex_never_moves() {
    // A massless vertex is pinned: under default gravity and a stretched
    // spring it does not move in any coordinate, while the free vertex on
    // the same spring does.
    let mut mesh = create_test_mesh(vec![0, 0, 0, 1_000_000, 0, 0], vec![]);
    mesh.vertices[0].mass = 0;

    let mut physics = Physics::new();
    physics.springs.push(Spring {
        vertex_a_index: 0,
        vertex_b_index: 1,
        rest_length: 500_000,
        stiffness: 100_000_000,
        damping: 0,
    });

    physics.update(&mut mesh, None);
    physics.update(&mut mesh, None);

    assert_eq!(mesh.vertices[0].position, Vec3::zeros());
    assert_eq!(mesh.vertices[0].old_position, Vec3::zeros());
    assert!(mesh.vertices[1].position.x < 1_000_000);
    assert!(mesh.vertices[1].position.y < 0);
}

#[test]
fn test_update_skips_dragged_vertex() {
    // With vertex 1 dragged, gravity and the stretched spring move vertex 0
    // but leave vertex 1 exactly where the drag put it.
    let mut mesh = Mesh {
        vertices: vec![
            vertex_at_rest(0, 0, 0, 1_000_000),
            vertex_at_rest(2_000_000, 0, 0, 1_000_000),
        ],
        indices: vec![],
    };
    let mut physics = Physics::new();
    physics.springs.push(Spring {
        vertex_a_index: 0,
        vertex_b_index: 1,
        rest_length: 1_000_000,
        stiffness: 100_000_000,
        damping: 0,
    });

    physics.update(&mut mesh, Some(1));

    assert!(mesh.vertices[0].position.x > 0);
    assert_eq!(mesh.vertices[1].position, Vec3::new(2_000_000, 0, 0));
    assert_eq!(mesh.vertices[1].old_position, Vec3::new(2_000_000, 0, 0));
    assert_eq!(mesh.vertices[1].acceleration, Vec3::zeros());
}
