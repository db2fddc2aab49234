//! The triangle mesh: per-vertex kinematic state plus triangle indices.
//!
//! A mesh owns an ordered sequence of vertices (the index into that sequence
//! is the vertex id, stable for the mesh's lifetime) and an ordered sequence
//! of `u32` triangle indices, three per triangle. Construction validates the
//! input eagerly: the flat position array must hold three coordinates per
//! vertex, and every triangle index must name an existing vertex, so that no
//! later phase can run off the end of the vertex list.

use vstd::prelude::*;

use crate::fixed::SCALE;
use crate::vec3::{v3_zero, Vec3};

verus! {

/// A single vertex of the mesh, owned by value and addressed by index.
///
/// `old_position` holds the vertex's position exactly one integration step
/// before `position`; the difference of the two is the implicit velocity of
/// Verlet integration. `acceleration` is the force-per-unit-mass accumulator,
/// reset and recomputed on every step. A `mass` of zero marks the vertex as
/// immovable by forces (infinite effective mass); it can still be moved by an
/// explicit position assignment such as a drag.
#[derive(Clone, Copy, Debug, PartialEq, Eq, Structural)]
pub struct Vertex {
    /// Current location, in micro-units.
    pub position: Vec3,
    /// Location one integration step before `position`.
    pub old_position: Vec3,
    /// Force-per-unit-mass accumulator for the current step.
    pub acceleration: Vec3,
    /// Mass in fixed-point units; zero means pinned.
    pub mass: i64,
}

/// The conditions under which mesh construction is refused.
#[derive(Clone, Copy, Debug, PartialEq, Eq, Structural)]
pub enum MeshError {
    /// The flat position array's length is not a multiple of three.
    InvalidTopology,
    /// A triangle index names a vertex that does not exist.
    IndexOutOfRange,
}

/// A triangle mesh: vertices plus a flat list of triangle indices.
pub struct Mesh {
    /// The vertices; a vertex id is an index into this vector.
    pub vertices: Vec<Vertex>,
    /// Triangle indices, three consecutive entries per triangle.
    pub indices: Vec<u32>,
}

/// The vertex built from coordinate triple `i` of a flat position array:
/// at rest (`old_position == position`), with no accumulated acceleration
/// and unit mass.
pub open spec fn vertex_at(positions: Seq<i64>, i: int) -> Vertex {
    Vertex {
        position: Vec3 {
            x: positions[3 * i],
            y: positions[3 * i + 1],
            z: positions[3 * i + 2],
        },
        old_position: Vec3 {
            x: positions[3 * i],
            y: positions[3 * i + 1],
            z: positions[3 * i + 2],
        },
        acceleration: v3_zero(),
        mass: SCALE,
    }
}

/// The vertex sequence a flat position array denotes.
pub open spec fn vertices_of(positions: Seq<i64>) -> Seq<Vertex> {
    Seq::new((positions.len() / 3) as nat, |i: int| vertex_at(positions, i))
}

/// All triangle indices name existing vertices.
pub open spec fn indices_in_bounds(indices: Seq<u32>, vertex_count: int) -> bool {
    forall|k: int| 0 <= k < indices.len() ==> (#[trigger] indices[k]) < vertex_count
}

/// The flat coordinate view of a vertex sequence: x, y, z per vertex in
/// vertex-id order.
pub open spec fn flat_positions(vs: Seq<Vertex>) -> Seq<i64> {
    Seq::new(3 * vs.len(), |j: int| {
        let v = vs[j / 3];
        if j % 3 == 0 {
            v.position.x
        } else if j % 3 == 1 {
            v.position.y
        } else {
            v.position.z
        }
    })
}

impl Vertex {
    /// A vertex at rest at the given coordinates, with unit mass.
    pub fn new(x: i64, y: i64, z: i64) -> (r: Vertex)
        ensures
            r == (Vertex {
                position: Vec3 { x, y, z },
                old_position: Vec3 { x, y, z },
                acceleration: v3_zero(),
                mass: SCALE,
            }),
    {
        let position = Vec3::new(x, y, z);
        Vertex { position, old_position: position, acceleration: Vec3::zeros(), mass: SCALE }
    }
}

impl Mesh {
    /// Every triangle index names an existing vertex.
    pub open spec fn wf(self) -> bool {
        indices_in_bounds(self.indices@, self.vertices@.len() as int)
    }

    /// Build a mesh from a flat position array (three coordinates per
    /// vertex) and a flat triangle index array.
    ///
    /// Fails with `InvalidTopology` when the position array's length is not
    /// a multiple of three, and with `IndexOutOfRange` when a triangle index
    /// names a vertex that does not exist; otherwise every coordinate triple
    /// becomes one vertex at rest with unit mass, and the indices are copied
    /// unchanged.
    pub fn new(positions: &Vec<i64>, indices: &Vec<u32>) -> (r: Result<Mesh, MeshError>)
        ensures
            positions@.len() % 3 != 0 ==> r == Err::<Mesh, MeshError>(MeshError::InvalidTopology),
            positions@.len() % 3 == 0 && !indices_in_bounds(indices@, positions@.len() as int / 3)
                ==> r == Err::<Mesh, MeshError>(MeshError::IndexOutOfRange),
            positions@.len() % 3 == 0 && indices_in_bounds(indices@, positions@.len() as int / 3)
                ==> (r matches Ok(m) && m.vertices@ == vertices_of(positions@) && m.indices@
                == indices@ && m.wf()),
    {
        if positions.len() % 3 != 0 {
            return Err(MeshError::InvalidTopology);
        }
        let vertex_count = positions.len() / 3;
        let mut k: usize = 0;
        while k < indices.len()
            invariant
                forall|j: int| 0 <= j < k ==> (#[trigger] indices@[j]) < vertex_count,
                vertex_count == positions@.len() / 3,
                positions@.len() % 3 == 0,
                k <= indices@.len(),
            decreases indices@.len() - k,
        {
            if indices[k] as usize >= vertex_count {
                return Err(MeshError::IndexOutOfRange);
            }
            k += 1;
        }
        proof {
            vstd::arithmetic::div_mod::lemma_fundamental_div_mod(positions@.len() as int, 3);
        }
        let mut vertices: Vec<Vertex> = Vec::new();
        let mut i: usize = 0;
        while i < vertex_count
            invariant
                vertex_count == positions@.len() / 3,
                positions@.len() % 3 == 0,
                3 * vertex_count <= positions@.len(),
                positions@.len() <= usize::MAX,
                i <= vertex_count,
                vertices@.len() == i,
                forall|j: int| 0 <= j < i ==> vertices@[j] == vertex_at(positions@, j),
            decreases vertex_count - i,
        {
            let x = positions[3 * i];
            let y = positions[3 * i + 1];
            let z = positions[3 * i + 2];
            vertices.push(Vertex::new(x, y, z));
            i += 1;
        }
        proof {
            assert(vertices@ =~= vertices_of(positions@));
        }
        let mesh = Mesh { vertices, indices: clone_indices(indices) };
        Ok(mesh)
    }

    /// The flattened coordinate buffer: `3 * vertex_count` micro-unit
    /// values, x, y, z per vertex in vertex-id order. A pure read.
    pub fn get_vertex_positions_flat(&self) -> (r: Vec<i64>)
        ensures
            r@ == flat_positions(self.vertices@),
    {
        let mut out: Vec<i64> = Vec::new();
        let mut i: usize = 0;
        while i < self.vertices.len()
            invariant
                i <= self.vertices@.len(),
                out@.len() == 3 * i,
                forall|j: int| 0 <= j < i ==> {
                    let v = #[trigger] self.vertices@[j];
                    out@[3 * j] == v.position.x && out@[3 * j + 1] == v.position.y && out@[3 * j
                        + 2] == v.position.z
                },
            decreases self.vertices@.len() - i,
        {
            let v = self.vertices[i];
            out.push(v.position.x);
            out.push(v.position.y);
            out.push(v.position.z);
            i += 1;
        }
        proof {
            let vs = self.vertices@;
            assert forall|j: int| 0 <= j < 3 * vs.len() implies out@[j] == flat_positions(vs)[j]
            by {
                let q = j / 3;
                let m = j % 3;
                vstd::arithmetic::div_mod::lemma_fundamental_div_mod(j, 3);
                assert(j == 3 * q + m);
                assert(0 <= q < vs.len());
                assert(out@[3 * q] == vs[q].position.x);
                assert(out@[3 * q + 1] == vs[q].position.y);
                assert(out@[3 * q + 2] == vs[q].position.z);
            }
            assert(out@ =~= flat_positions(vs));
        }
        out
    }
}

/// A copy of the index array.
fn clone_indices(indices: &Vec<u32>) -> (r: Vec<u32>)
    ensures
        r@ == indices@,
{
    let mut out: Vec<u32> = Vec::new();
    let mut k: usize = 0;
    while k < indices.len()
        invariant
            k <= indices@.len(),
            out@ == indices@.take(k as int),
        decreases indices@.len() - k,
    {
        out.push(indices[k]);
        k += 1;
        proof {
            assert(out@ =~= indices@.take(k as int));
        }
    }
    proof {
        assert(indices@.take(indices@.len() as int) =~= indices@);
    }
    out
}

} // verus!
