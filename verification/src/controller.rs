//! The interaction controller: one mesh, one physics engine, a cached
//! flattened position buffer for external consumption, and the index of the
//! vertex currently being dragged, if any.
//!
//! Dragging overwrites the grabbed vertex's `position` only; its
//! `old_position` is left stale on purpose, so the jump accumulated over a
//! drag becomes throw velocity once the drag ends and integration resumes.

use vstd::prelude::*;

use crate::mesh::{
    flat_positions, indices_in_bounds, vertices_of, Mesh, MeshError, Vertex,
};
use crate::physics::{
    default_gravity, num_edges, spring_seq, springs_wf, update_spec, Physics, Spring,
    DEFAULT_TIME_STEP,
};
use crate::vec3::Vec3;

verus! {

/// Drives a deformable mesh: construction from raw arrays, one `tick` per
/// rendering frame, and mouse-style drag events.
pub struct FaceController {
    mesh: Mesh,
    physics: Physics,
    vertex_positions: Vec<i64>,
    dragged_vertex_index: Option<u32>,
}

/// The dragged-vertex argument handed to the physics engine.
pub open spec fn drag_target(d: Option<u32>) -> Option<usize> {
    match d {
        Some(i) => Some(i as usize),
        None => None,
    }
}

impl FaceController {
    /// The mesh indices and springs name existing vertices, and so does the
    /// dragged vertex, if any.
    pub closed spec fn wf(self) -> bool {
        &&& self.mesh.wf()
        &&& springs_wf(self.physics.springs@, self.mesh.vertices@.len() as int)
        &&& match self.dragged_vertex_index {
            Some(d) => (d as int) < self.mesh.vertices@.len(),
            None => true,
        }
    }

    /// The vertices of the owned mesh.
    pub closed spec fn vertices(self) -> Seq<Vertex> {
        self.mesh.vertices@
    }

    /// The triangle indices of the owned mesh.
    pub closed spec fn triangle_indices(self) -> Seq<u32> {
        self.mesh.indices@
    }

    /// The springs of the owned physics engine.
    pub closed spec fn springs(self) -> Seq<Spring> {
        self.physics.springs@
    }

    /// The engine's current time step.
    pub closed spec fn time_step(self) -> i64 {
        self.physics.time_step
    }

    /// The engine's gravity vector.
    pub closed spec fn gravity(self) -> Vec3 {
        self.physics.gravity
    }

    /// The cached flattened position buffer.
    pub closed spec fn cached_positions(self) -> Seq<i64> {
        self.vertex_positions@
    }

    /// The index of the vertex currently being dragged, if any.
    pub closed spec fn dragged(self) -> Option<u32> {
        self.dragged_vertex_index
    }

    /// Build the mesh, derive its springs with the default engine
    /// parameters, and cache the flattened positions; nothing is dragged
    /// initially. Fails exactly as mesh construction does.
    pub fn new(positions: &Vec<i64>, indices: &Vec<u32>) -> (r: Result<FaceController, MeshError>)
        ensures
            positions@.len() % 3 != 0 ==> r == Err::<FaceController, MeshError>(
                MeshError::InvalidTopology,
            ),
            positions@.len() % 3 == 0 && !indices_in_bounds(indices@, positions@.len() as int / 3)
                ==> r == Err::<FaceController, MeshError>(MeshError::IndexOutOfRange),
            positions@.len() % 3 == 0 && indices_in_bounds(indices@, positions@.len() as int / 3)
                ==> (r matches Ok(c) && c.wf() && c.vertices() == vertices_of(positions@)
                && c.triangle_indices() == indices@ && c.springs() == spring_seq(
                vertices_of(positions@),
                indices@,
                num_edges(indices@),
            ) && c.time_step() == DEFAULT_TIME_STEP && c.gravity()
                == default_gravity() && c.cached_positions() == flat_positions(
                vertices_of(positions@),
            ) && c.dragged() matches None),
    {
        let mesh = match Mesh::new(positions, indices) {
            Ok(m) => m,
            Err(e) => {
                return Err(e);
            },
        };
        let mut physics = Physics::new();
        physics.init_springs(&mesh);
        proof {
            assert(physics.springs@ =~= spring_seq(
                mesh.vertices@,
                mesh.indices@,
                num_edges(mesh.indices@),
            ));
        }
        let vertex_positions = mesh.get_vertex_positions_flat();
        Ok(
            FaceController {
                mesh,
                physics,
                vertex_positions,
                dragged_vertex_index: None,
            },
        )
    }

    /// Advance the simulation by `dt` (micro-unit seconds): the engine's
    /// time step is overwritten with `dt`, one `update` runs with the
    /// current dragged vertex, and the cached position buffer is refreshed.
    /// A dragged vertex comes through the step untouched.
    pub fn tick(&mut self, dt: i64)
        requires
            old(self).wf(),
        ensures
            final(self).wf(),
            final(self).vertices() == update_spec(
                old(self).vertices(),
                old(self).springs(),
                old(self).gravity(),
                dt as int,
                drag_target(old(self).dragged()),
            ),
            final(self).vertices().len() == old(self).vertices().len(),
            final(self).cached_positions() == flat_positions(final(self).vertices()),
            final(self).time_step() == dt,
            final(self).springs() == old(self).springs(),
            final(self).gravity() == old(self).gravity(),
            final(self).dragged() == old(self).dragged(),
            final(self).triangle_indices() == old(self).triangle_indices(),
            old(self).dragged() matches Some(d) ==> final(self).vertices()[d as int] == old(
                self,
            ).vertices()[d as int],
    {
        self.physics.time_step = dt;
        let dragged = match self.dragged_vertex_index {
            Some(i) => Some(i as usize),
            None => None,
        };
        self.physics.update(&mut self.mesh, dragged);
        proof {
            crate::physics::lemma_springs_phase_len(
                crate::physics::grav_phase(
                    old(self).vertices(),
                    old(self).gravity(),
                    drag_target(old(self).dragged()),
                ),
                old(self).springs(),
                old(self).springs().len() as int,
                drag_target(old(self).dragged()),
            );
            if let Some(d) = old(self).dragged() {
                crate::physics::lemma_dragged_vertex_is_untouched(
                    old(self).vertices(),
                    old(self).springs(),
                    old(self).gravity(),
                    dt as int,
                    d as usize,
                );
            }
        }
        self.vertex_positions = self.mesh.get_vertex_positions_flat();
    }

    /// Begin dragging vertex `vertex_id` and move it to `(x, y, z)`. Its
    /// `old_position` is deliberately not touched. A `vertex_id` naming no
    /// existing vertex changes nothing.
    pub fn on_mouse_down(&mut self, vertex_id: u32, x: i64, y: i64, z: i64)
        requires
            old(self).wf(),
        ensures
            final(self).wf(),
            (vertex_id as int) < old(self).vertices().len() ==> (final(self).dragged() == Some(
                vertex_id,
            ) && final(self).vertices() == old(self).vertices().update(
                vertex_id as int,
                (Vertex {
                    position: Vec3 { x, y, z },
                    ..old(self).vertices()[vertex_id as int]
                }),
            )),
            vertex_id as int >= old(self).vertices().len() ==> (final(self).dragged() == old(
                self,
            ).dragged() && final(self).vertices() == old(self).vertices()),
            final(self).springs() == old(self).springs(),
            final(self).time_step() == old(self).time_step(),
            final(self).gravity() == old(self).gravity(),
            final(self).cached_positions() == old(self).cached_positions(),
            final(self).triangle_indices() == old(self).triangle_indices(),
    {
        if (vertex_id as usize) < self.mesh.vertices.len() {
            self.dragged_vertex_index = Some(vertex_id);
            self.mesh.vertices[vertex_id as usize].position = Vec3::new(x, y, z);
        }
    }

    /// Move the dragged vertex to `(x, y, z)`; its `old_position` is
    /// deliberately not touched, so the dragged vertex's position tracks
    /// exactly the coordinates handed in. With nothing dragged, nothing
    /// changes.
    pub fn on_mouse_move(&mut self, x: i64, y: i64, z: i64)
        requires
            old(self).wf(),
        ensures
            final(self).wf(),
            old(self).dragged() matches Some(d) ==> (final(self).vertices() == old(
                self,
            ).vertices().update(
                d as int,
                (Vertex { position: Vec3 { x, y, z }, ..old(self).vertices()[d as int] }),
            ) && final(self).vertices()[d as int].position == (Vec3 { x, y, z })),
            old(self).dragged() matches None ==> final(self).vertices() == old(self).vertices(),
            final(self).dragged() == old(self).dragged(),
            final(self).springs() == old(self).springs(),
            final(self).time_step() == old(self).time_step(),
            final(self).gravity() == old(self).gravity(),
            final(self).cached_positions() == old(self).cached_positions(),
            final(self).triangle_indices() == old(self).triangle_indices(),
    {
        if let Some(vertex_id) = self.dragged_vertex_index {
            self.mesh.vertices[vertex_id as usize].position = Vec3::new(x, y, z);
        }
    }

    /// End the drag: only the dragged-vertex marker is cleared, every
    /// vertex's state is kept exactly as the drag left it, so the next
    /// `tick` resumes normal physics from that state.
    pub fn on_mouse_up(&mut self)
        requires
            old(self).wf(),
        ensures
            final(self).wf(),
            final(self).dragged() matches None,
            final(self).vertices() == old(self).vertices(),
            final(self).springs() == old(self).springs(),
            final(self).time_step() == old(self).time_step(),
            final(self).gravity() == old(self).gravity(),
            final(self).cached_positions() == old(self).cached_positions(),
            final(self).triangle_indices() == old(self).triangle_indices(),
    {
        self.dragged_vertex_index = None;
    }

    /// Number of vertices in the mesh.
    pub fn get_vertex_count(&self) -> (r: usize)
        ensures
            r == self.vertices().len(),
    {
        self.mesh.vertices.len()
    }

    /// The cached flattened position buffer: three micro-unit coordinates
    /// per vertex, refreshed by construction and by every `tick`, and only
    /// valid until the next `tick` overwrites it.
    pub fn positions_view(&self) -> (r: &Vec<i64>)
        ensures
            r@ == self.cached_positions(),
    {
        &self.vertex_positions
    }
}

} // verus!
