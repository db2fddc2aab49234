//! The spring network and the per-step simulation.
//!
//! `init_springs` derives exactly one spring per undirected edge appearing
//! in any triangle of a mesh, in the order edges are first discovered while
//! scanning the triangles. `update` advances a mesh by one time step in
//! three ordered phases: gravity reset, spring forces, Verlet integration.

use vstd::prelude::*;

use crate::fixed::{fx_add, fx_mul, fx_sub, in_i64, mul_fx, sub_fx};
use crate::mesh::{Mesh, Vertex};
use crate::vec3::{
    v3_add, v3_diff, v3_div_s, v3_div_scalar, v3_dot, v3_dot_product, v3_mag, v3_magnitude,
    v3_scale, v3_scaled, v3_sub, v3_sum, Vec3,
};

verus! {

/// Stiffness given to every derived spring: `1000.0` in micro-units.
pub const SPRING_STIFFNESS: i64 = 1_000_000_000;

/// Damping coefficient given to every derived spring: `10.0` in micro-units.
pub const SPRING_DAMPING: i64 = 10_000_000;

/// Default simulation time step: `0.01` seconds in micro-units.
pub const DEFAULT_TIME_STEP: i64 = 10_000;

/// Default downward gravity: `-9.81` in micro-units.
pub const GRAVITY_Y: i64 = -9_810_000;

/// Two spring endpoints closer than this (`1e-6` in micro-units) count as
/// coincident and exchange no force.
pub const COINCIDENT_DISTANCE: i64 = 1;

/// A spring connecting two vertices of a mesh, pulling or pushing them
/// toward its rest length.
#[derive(Clone, Copy, Debug, PartialEq, Eq, Structural)]
pub struct Spring {
    /// Index of the first connected vertex; at most `vertex_b_index` when
    /// the spring was derived from a triangle edge.
    pub vertex_a_index: usize,
    /// Index of the second connected vertex.
    pub vertex_b_index: usize,
    /// Length at which the spring applies no force, in micro-units.
    pub rest_length: i64,
    /// Spring constant, in micro-units.
    pub stiffness: i64,
    /// Damping coefficient, in micro-units.
    pub damping: i64,
}

/// The physics engine: the derived springs plus the simulation parameters.
pub struct Physics {
    /// The springs, one per unique undirected triangle edge.
    pub springs: Vec<Spring>,
    /// Seconds per simulation step, in micro-units.
    pub time_step: i64,
    /// Acceleration applied to every free vertex each step, in micro-units.
    pub gravity: Vec3,
}

/// The default gravity vector.
pub open spec fn default_gravity() -> Vec3 {
    Vec3 { x: 0, y: GRAVITY_Y, z: 0 }
}

/// Every spring's endpoints name existing vertices.
pub open spec fn springs_wf(springs: Seq<Spring>, vertex_count: int) -> bool {
    forall|k: int| 0 <= k < springs.len() ==> (#[trigger] springs[k]).vertex_a_index
        < vertex_count && springs[k].vertex_b_index < vertex_count
}

/// An undirected edge in canonical order: smaller endpoint first.
pub open spec fn canon(u: int, v: int) -> (int, int) {
    if u < v {
        (u, v)
    } else {
        (v, u)
    }
}

/// Number of edges scanned from an index list: three per complete triangle;
/// a trailing incomplete triple contributes none.
pub open spec fn num_edges(ind: Seq<u32>) -> int {
    3 * (ind.len() as int / 3)
}

/// The `j`-th edge of the triangle scan, in canonical order. Triangle
/// `j / 3` has vertices `(a, b, c)`; its edges are visited as `(a, b)`,
/// `(b, c)`, `(c, a)`.
pub open spec fn edge_at(ind: Seq<u32>, j: int) -> (int, int) {
    let t = j / 3;
    let a = ind[3 * t] as int;
    let b = ind[3 * t + 1] as int;
    let c = ind[3 * t + 2] as int;
    if j % 3 == 0 {
        canon(a, b)
    } else if j % 3 == 1 {
        canon(b, c)
    } else {
        canon(c, a)
    }
}

/// Whether edge `e` already occurred among the first `j` edges of the scan.
pub open spec fn seen_before(ind: Seq<u32>, j: int, e: (int, int)) -> bool {
    exists|k: int| 0 <= k < j && #[trigger] edge_at(ind, k) == e
}

/// The spring derived for canonical edge `e`: rest length is the distance
/// between its endpoints at derivation time; stiffness and damping are the
/// fixed defaults.
pub open spec fn spring_at(vs: Seq<Vertex>, e: (int, int)) -> Spring {
    Spring {
        vertex_a_index: e.0 as usize,
        vertex_b_index: e.1 as usize,
        rest_length: v3_mag(v3_sub(vs[e.0].position, vs[e.1].position)) as i64,
        stiffness: SPRING_STIFFNESS,
        damping: SPRING_DAMPING,
    }
}

/// The springs derived from the first `j` edges of the triangle scan: one
/// spring per canonical edge, at its first occurrence, in scan order.
pub open spec fn spring_seq(vs: Seq<Vertex>, ind: Seq<u32>, j: int) -> Seq<Spring>
    decreases j,
{
    if j <= 0 {
        Seq::empty()
    } else {
        let prev = spring_seq(vs, ind, j - 1);
        if seen_before(ind, j - 1, edge_at(ind, j - 1)) {
            prev
        } else {
            prev.push(spring_at(vs, edge_at(ind, j - 1)))
        }
    }
}

/// Whether vertex `i` is the one currently being dragged.
pub open spec fn is_dragged(dragged: Option<usize>, i: int) -> bool {
    match dragged {
        Some(d) => d as int == i,
        None => false,
    }
}

/// Gravity phase: every vertex except the dragged one has its acceleration
/// reset to the gravity vector; the dragged vertex is left untouched.
pub open spec fn grav_phase(vs: Seq<Vertex>, g: Vec3, dragged: Option<usize>) -> Seq<Vertex> {
    Seq::new(
        vs.len(),
        |i: int|
            if is_dragged(dragged, i) {
                vs[i]
            } else {
                Vertex { acceleration: g, ..vs[i] }
            },
    )
}

/// The effect of one spring on the acceleration accumulators.
///
/// With endpoint positions closer than `COINCIDENT_DISTANCE` the spring is
/// skipped entirely. Otherwise the total force is the stretch force
/// `stiffness * (distance - rest_length)` along the edge direction plus the
/// damping force `damping * dot(relative_velocity, direction)` along the
/// same direction; endpoint `a` receives `-force / mass`, endpoint `b`
/// receives `+force / mass`, each unless that endpoint is dragged or has no
/// mass.
pub open spec fn spring_apply(vs: Seq<Vertex>, s: Spring, dragged: Option<usize>) -> Seq<Vertex> {
    let a = s.vertex_a_index as int;
    let b = s.vertex_b_index as int;
    let va = vs[a];
    let vb = vs[b];
    let delta = v3_sub(va.position, vb.position);
    let dist = v3_mag(delta);
    if dist > COINCIDENT_DISTANCE {
        let direction = v3_div_s(delta, dist);
        let stretch = fx_sub(dist, s.rest_length as int);
        let spring_force = v3_scale(direction, fx_mul(s.stiffness as int, stretch));
        let rel_vel = v3_sub(
            v3_sub(va.position, va.old_position),
            v3_sub(vb.position, vb.old_position),
        );
        let damping_force = v3_scale(direction, fx_mul(s.damping as int, v3_dot(rel_vel, direction)));
        let total = v3_add(spring_force, damping_force);
        let vs1 = if !is_dragged(dragged, a) && va.mass > 0 {
            vs.update(
                a,
                Vertex {
                    acceleration: v3_sub(va.acceleration, v3_div_s(total, va.mass as int)),
                    ..va
                },
            )
        } else {
            vs
        };
        let vs2 = if !is_dragged(dragged, b) && vb.mass > 0 {
            vs1.update(
                b,
                Vertex {
                    acceleration: v3_add(vs1[b].acceleration, v3_div_s(total, vb.mass as int)),
                    ..vs1[b]
                },
            )
        } else {
            vs1
        };
        vs2
    } else {
        vs
    }
}

/// Spring phase: the first `k` springs applied in order.
pub open spec fn springs_phase(
    vs: Seq<Vertex>,
    springs: Seq<Spring>,
    k: int,
    dragged: Option<usize>,
) -> Seq<Vertex>
    decreases k,
{
    if k <= 0 {
        vs
    } else {
        spring_apply(springs_phase(vs, springs, k - 1, dragged), springs[k - 1], dragged)
    }
}

/// Verlet step of one vertex: the new position adds the implicit velocity
/// `position - old_position` and the acceleration scaled by the squared
/// time step; the old position becomes the pre-step position.
pub open spec fn verlet_vertex(v: Vertex, dt: int) -> Vertex {
    let vel = v3_sub(v.position, v.old_position);
    let step = v3_scale(v3_scale(v.acceleration, dt), dt);
    Vertex { position: v3_add(v3_add(v.position, vel), step), old_position: v.position, ..v }
}

/// Integration phase: every free vertex takes a Verlet step. The dragged
/// vertex is excluded entirely, and so is every massless (pinned) vertex:
/// a pinned vertex is immovable by forces, gravity included, and only an
/// explicit position assignment such as a drag can move it.
pub open spec fn verlet_phase(vs: Seq<Vertex>, dt: int, dragged: Option<usize>) -> Seq<Vertex> {
    Seq::new(
        vs.len(),
        |i: int|
            if is_dragged(dragged, i) || vs[i].mass == 0 {
                vs[i]
            } else {
                verlet_vertex(vs[i], dt)
            },
    )
}

/// One full simulation step: gravity reset, then all spring forces in
/// order, then Verlet integration.
pub open spec fn update_spec(
    vs: Seq<Vertex>,
    springs: Seq<Spring>,
    g: Vec3,
    dt: int,
    dragged: Option<usize>,
) -> Seq<Vertex> {
    verlet_phase(
        springs_phase(grav_phase(vs, g, dragged), springs, springs.len() as int, dragged),
        dt,
        dragged,
    )
}

/// Applying a spring whose endpoints exist never changes the number of
/// vertices.
pub proof fn lemma_spring_apply_len(vs: Seq<Vertex>, s: Spring, dragged: Option<usize>)
    requires
        s.vertex_a_index < vs.len(),
        s.vertex_b_index < vs.len(),
    ensures
        spring_apply(vs, s, dragged).len() == vs.len(),
{
}

/// The spring phase never changes the number of vertices.
pub proof fn lemma_springs_phase_len(
    vs: Seq<Vertex>,
    springs: Seq<Spring>,
    k: int,
    dragged: Option<usize>,
)
    requires
        k <= springs.len(),
        springs_wf(springs, vs.len() as int),
    ensures
        springs_phase(vs, springs, k, dragged).len() == vs.len(),
    decreases k,
{
    if k > 0 {
        lemma_springs_phase_len(vs, springs, k - 1, dragged);
        lemma_spring_apply_len(
            springs_phase(vs, springs, k - 1, dragged),
            springs[k - 1],
            dragged,
        );
    }
}

/// The canonical endpoint pair of a spring.
pub open spec fn spring_pair(s: Spring) -> (int, int) {
    (s.vertex_a_index as int, s.vertex_b_index as int)
}

/// Some spring among the first `m`-edge derivation covers scanned edge `j`.
pub open spec fn edge_covered(vs: Seq<Vertex>, ind: Seq<u32>, m: int, j: int) -> bool {
    exists|k: int|
        0 <= k < spring_seq(vs, ind, m).len() && spring_pair(
            #[trigger] spring_seq(vs, ind, m)[k],
        ) == edge_at(ind, j)
}

/// Spring derivation yields exactly one spring per unique undirected edge
/// of the scanned triangles: each derived spring belongs to a scanned edge
/// in canonical (smaller endpoint first) order and carries the distance of
/// its endpoints as rest length, no two derived springs share an edge, and
/// every scanned edge is covered by exactly one of them, however many
/// triangles share it.
pub proof fn lemma_one_spring_per_edge(vs: Seq<Vertex>, ind: Seq<u32>, m: int)
    requires
        0 <= m <= num_edges(ind),
    ensures
        forall|k: int| 0 <= k < spring_seq(vs, ind, m).len() ==> {
            let s = #[trigger] spring_seq(vs, ind, m)[k];
            seen_before(ind, m, spring_pair(s)) && s == spring_at(vs, spring_pair(s))
                && s.vertex_a_index <= s.vertex_b_index
        },
        forall|k1: int, k2: int|
            0 <= k1 < k2 < spring_seq(vs, ind, m).len() ==> spring_pair(
                #[trigger] spring_seq(vs, ind, m)[k1],
            ) != spring_pair(#[trigger] spring_seq(vs, ind, m)[k2]),
        forall|j: int| 0 <= j < m ==> #[trigger] edge_covered(vs, ind, m, j),
    decreases m,
{
    if m > 0 {
        lemma_one_spring_per_edge(vs, ind, m - 1);
        let prev = spring_seq(vs, ind, m - 1);
        let out = spring_seq(vs, ind, m);
        let e = edge_at(ind, m - 1);
        lemma_edge_at_in_range(ind, m - 1);
        assert forall|j: int| 0 <= j < m - 1 && seen_before(ind, m - 1, edge_at(ind, j))
            implies seen_before(ind, m, edge_at(ind, j)) by {
            lemma_seen_before_extend(ind, m - 1, edge_at(ind, j));
        }
        if seen_before(ind, m - 1, e) {
            assert(out == prev);
            // The new edge was seen before, so some earlier spring covers it.
            let j0 = choose|j0: int| 0 <= j0 < m - 1 && #[trigger] edge_at(ind, j0) == e;
            assert forall|j: int| 0 <= j < m implies #[trigger] edge_covered(vs, ind, m, j) by {
                if j == m - 1 {
                    assert(edge_covered(vs, ind, m - 1, j0));
                    let k = choose|k: int|
                        0 <= k < prev.len() && spring_pair(#[trigger] prev[k]) == edge_at(
                            ind,
                            j0,
                        );
                    assert(spring_pair(out[k]) == edge_at(ind, m - 1));
                } else {
                    assert(edge_covered(vs, ind, m - 1, j));
                    let k = choose|k: int|
                        0 <= k < prev.len() && spring_pair(#[trigger] prev[k]) == edge_at(ind, j);
                    assert(spring_pair(out[k]) == edge_at(ind, j));
                }
            }
            assert forall|k: int| 0 <= k < out.len() implies {
                let s = #[trigger] out[k];
                seen_before(ind, m, spring_pair(s)) && s == spring_at(vs, spring_pair(s))
                    && s.vertex_a_index <= s.vertex_b_index
            } by {
                lemma_seen_before_extend(ind, m - 1, spring_pair(out[k]));
            }
        } else {
            assert(out == prev.push(spring_at(vs, e)));
            let news = spring_at(vs, e);
            assert(spring_pair(news) == e);
            assert(news.vertex_a_index <= news.vertex_b_index);
            assert(seen_before(ind, m, e)) by {
                assert(0 <= m - 1 < m && edge_at(ind, m - 1) == e);
            }
            assert forall|k: int| 0 <= k < out.len() implies {
                let s = #[trigger] out[k];
                seen_before(ind, m, spring_pair(s)) && s == spring_at(vs, spring_pair(s))
                    && s.vertex_a_index <= s.vertex_b_index
            } by {
                if k < prev.len() {
                    assert(out[k] == prev[k]);
                    lemma_seen_before_extend(ind, m - 1, spring_pair(prev[k]));
                } else {
                    assert(out[k] == news);
                }
            }
            assert forall|k1: int, k2: int| 0 <= k1 < k2 < out.len() implies spring_pair(
                #[trigger] out[k1],
            ) != spring_pair(#[trigger] out[k2]) by {
                if k2 == prev.len() as int {
                    // A pair equal to the new edge would mean the edge was seen.
                    assert(out[k1] == prev[k1]);
                    if spring_pair(prev[k1]) == e {
                        assert(seen_before(ind, m - 1, e));
                    }
                } else {
                    assert(out[k1] == prev[k1] && out[k2] == prev[k2]);
                }
            }
            assert forall|j: int| 0 <= j < m implies #[trigger] edge_covered(vs, ind, m, j) by {
                if j == m - 1 {
                    assert(spring_pair(out[prev.len() as int]) == edge_at(ind, j));
                } else {
                    assert(edge_covered(vs, ind, m - 1, j));
                    let k = choose|k: int|
                        0 <= k < prev.len() && spring_pair(#[trigger] prev[k]) == edge_at(ind, j);
                    assert(spring_pair(out[k]) == edge_at(ind, j));
                }
            }
        }
    }
}

/// Both components of a scanned edge are `u32` values, so they survive the
/// round trip through `usize` that building a spring takes.
proof fn lemma_edge_at_in_range(ind: Seq<u32>, j: int)
    requires
        0 <= j < num_edges(ind),
    ensures
        0 <= edge_at(ind, j).0 <= u32::MAX,
        0 <= edge_at(ind, j).1 <= u32::MAX,
{
    vstd::arithmetic::div_mod::lemma_fundamental_div_mod(j, 3);
}

/// A spring between two coincident endpoints (distance at most
/// `COINCIDENT_DISTANCE`) applies no force at all: the vertex sequence
/// comes through it unchanged.
pub proof fn lemma_coincident_spring_is_inert(vs: Seq<Vertex>, s: Spring, dragged: Option<usize>)
    requires
        v3_mag(
            v3_sub(
                vs[s.vertex_a_index as int].position,
                vs[s.vertex_b_index as int].position,
            ),
        ) <= COINCIDENT_DISTANCE,
    ensures
        spring_apply(vs, s, dragged) == vs,
{
}

/// A spring changes nothing but accelerations, and leaves a vertex that is
/// dragged or massless entirely alone.
pub proof fn lemma_spring_apply_frame(vs: Seq<Vertex>, s: Spring, dragged: Option<usize>, i: int)
    requires
        0 <= i < vs.len(),
        s.vertex_a_index < vs.len(),
        s.vertex_b_index < vs.len(),
    ensures
        spring_apply(vs, s, dragged)[i].position == vs[i].position,
        spring_apply(vs, s, dragged)[i].old_position == vs[i].old_position,
        spring_apply(vs, s, dragged)[i].mass == vs[i].mass,
        is_dragged(dragged, i) || vs[i].mass <= 0 ==> spring_apply(vs, s, dragged)[i] == vs[i],
{
}

/// The whole spring phase changes nothing but accelerations, and leaves a
/// vertex that is dragged or massless entirely alone.
pub proof fn lemma_springs_phase_frame(
    vs: Seq<Vertex>,
    springs: Seq<Spring>,
    k: int,
    dragged: Option<usize>,
    i: int,
)
    requires
        0 <= i < vs.len(),
        k <= springs.len(),
        springs_wf(springs, vs.len() as int),
    ensures
        springs_phase(vs, springs, k, dragged)[i].position == vs[i].position,
        springs_phase(vs, springs, k, dragged)[i].old_position == vs[i].old_position,
        springs_phase(vs, springs, k, dragged)[i].mass == vs[i].mass,
        is_dragged(dragged, i) || vs[i].mass <= 0 ==> springs_phase(vs, springs, k, dragged)[i]
            == vs[i],
    decreases k,
{
    if k > 0 {
        lemma_springs_phase_frame(vs, springs, k - 1, dragged, i);
        lemma_springs_phase_len(vs, springs, k - 1, dragged);
        lemma_spring_apply_frame(
            springs_phase(vs, springs, k - 1, dragged),
            springs[k - 1],
            dragged,
            i,
        );
    }
}

/// A massless (pinned) vertex never changes position under a step,
/// whatever gravity and the springs do: no spring force ever reaches it
/// and the integration phase excludes it, so the step touches nothing of
/// it but the acceleration accumulator, which the gravity phase resets.
pub proof fn lemma_pinned_vertex_never_moves(
    vs: Seq<Vertex>,
    springs: Seq<Spring>,
    g: Vec3,
    dt: int,
    dragged: Option<usize>,
    i: int,
)
    requires
        0 <= i < vs.len(),
        springs_wf(springs, vs.len() as int),
        !is_dragged(dragged, i),
        vs[i].mass == 0,
    ensures
        update_spec(vs, springs, g, dt, dragged)[i] == (Vertex { acceleration: g, ..vs[i] }),
        update_spec(vs, springs, g, dt, dragged)[i].position == vs[i].position,
        update_spec(vs, springs, g, dt, dragged)[i].old_position == vs[i].old_position,
{
    let gvs = grav_phase(vs, g, dragged);
    assert(gvs[i] == (Vertex { acceleration: g, ..vs[i] }));
    lemma_springs_phase_frame(gvs, springs, springs.len() as int, dragged, i);
    lemma_springs_phase_len(gvs, springs, springs.len() as int, dragged);
}

/// The dragged vertex comes through a full simulation step entirely
/// unchanged: gravity reset, spring forces and integration all skip it.
pub proof fn lemma_dragged_vertex_is_untouched(
    vs: Seq<Vertex>,
    springs: Seq<Spring>,
    g: Vec3,
    dt: int,
    d: usize,
)
    requires
        (d as int) < vs.len(),
        springs_wf(springs, vs.len() as int),
    ensures
        update_spec(vs, springs, g, dt, Some(d))[d as int] == vs[d as int],
{
    let gvs = grav_phase(vs, g, Some(d));
    lemma_springs_phase_frame(gvs, springs, springs.len() as int, Some(d), d as int);
    lemma_springs_phase_len(gvs, springs, springs.len() as int, Some(d));
}

/// The vertex sequence after `n` full simulation steps.
pub open spec fn iter_update(
    vs: Seq<Vertex>,
    springs: Seq<Spring>,
    g: Vec3,
    dt: int,
    dragged: Option<usize>,
    n: nat,
) -> Seq<Vertex>
    decreases n,
{
    if n == 0 {
        vs
    } else {
        update_spec(
            iter_update(vs, springs, g, dt, dragged, (n - 1) as nat),
            springs,
            g,
            dt,
            dragged,
        )
    }
}

/// The `n`-th triangular number `1 + 2 + ... + n`.
pub open spec fn tri_num(n: nat) -> int
    decreases n,
{
    if n == 0 {
        0
    } else {
        tri_num((n - 1) as nat) + n
    }
}

/// The displacement gravity contributes in one step: `g * dt * dt` in
/// fixed-point arithmetic.
pub open spec fn grav_step(g: Vec3, dt: int) -> Vec3 {
    v3_scale(v3_scale(g, dt), dt)
}

/// Triangular numbers are nonnegative, monotone, and at least their index.
proof fn lemma_tri_num_props(m: nat, n: nat)
    requires
        m <= n,
    ensures
        0 <= tri_num(m) <= tri_num(n),
        n <= tri_num(n),
    decreases n,
{
    if n > 0 {
        if m == n {
            lemma_tri_num_props((n - 1) as nat, (n - 1) as nat);
        } else {
            lemma_tri_num_props(m, (n - 1) as nat);
        }
    }
}

/// A multiple `m * c` with `0 <= m <= t` lies between `0` and `t * c`, so
/// it and its offset from `p0` inherit the range of the endpoints.
proof fn lemma_scaled_in_range(c: int, m: int, t: int, p0: int)
    requires
        0 <= m <= t,
        in_i64(t * c),
        in_i64(p0),
        in_i64(p0 + t * c),
    ensures
        in_i64(m * c),
        in_i64(p0 + m * c),
{
    assert(0 <= m * c <= t * c || t * c <= m * c <= 0) by (nonlinear_arith)
        requires
            0 <= m <= t,
    ;
}

/// One Verlet step of the scalar free-fall recurrence: a coordinate at
/// `p0 + tri_num(k) * c` whose previous value is one triangular step
/// behind moves to `p0 + tri_num(k + 1) * c`, with no clamping while the
/// `n`-step displacement stays in range.
proof fn lemma_free_fall_scalar(p0: int, c: int, k: nat, n: nat, p: int, o: int)
    requires
        k < n,
        in_i64(p0),
        in_i64(tri_num(n) * c),
        in_i64(p0 + tri_num(n) * c),
        p == p0 + tri_num(k) * c,
        k == 0 ==> o == p0,
        k >= 1 ==> o == p0 + tri_num((k - 1) as nat) * c,
    ensures
        fx_add(fx_add(p, fx_sub(p, o)), c) == p0 + tri_num((k + 1) as nat) * c,
{
    let t = tri_num(n);
    let tk = tri_num(k);
    let tk1 = tri_num((k + 1) as nat);
    lemma_tri_num_props(k, n);
    lemma_tri_num_props((k + 1) as nat, n);
    assert(tk1 == tk + k + 1);
    // The implicit velocity is k * c, exactly.
    let om = if k == 0 {
        0
    } else {
        tri_num((k - 1) as nat)
    };
    assert(tk - om == k);
    assert(p - o == (tk - om) * c) by (nonlinear_arith)
        requires
            p == p0 + tk * c,
            o == p0 + om * c,
    ;
    lemma_scaled_in_range(c, k as int, t, p0);
    assert(fx_sub(p, o) == k * c);
    // Position plus velocity, still unclamped.
    assert(tk * c + k * c == (tk + k) * c) by (nonlinear_arith);
    lemma_scaled_in_range(c, tk + k, t, p0);
    assert(fx_add(p, k * c) == p0 + (tk + k) * c);
    // Adding the gravity step lands on the next triangular multiple.
    assert((tk + k) * c + c == tk1 * c) by (nonlinear_arith)
        requires
            tk1 == tk + k + 1,
    ;
    lemma_scaled_in_range(c, tk1, t, p0);
}

/// Pure free fall: with no springs, nothing dragged, and a vertex with
/// mass starting at rest (`old_position == position`), `n` steps of
/// constant gravity `g` move it by the triangular multiple
/// `tri_num(n) * g * dt * dt`, the displacement sequence of Verlet
/// integration — after one step by `1 * g * dt * dt`, after two by
/// `3 * g * dt * dt`, and so on. The range preconditions keep every
/// intermediate coordinate clear of clamping.
pub proof fn lemma_constant_gravity_free_fall(
    vs: Seq<Vertex>,
    g: Vec3,
    dt: int,
    n: nat,
    i: int,
)
    requires
        0 <= i < vs.len(),
        vs[i].mass != 0,
        vs[i].old_position == vs[i].position,
        in_i64(tri_num(n) * grav_step(g, dt).x),
        in_i64(tri_num(n) * grav_step(g, dt).y),
        in_i64(tri_num(n) * grav_step(g, dt).z),
        in_i64(vs[i].position.x + tri_num(n) * grav_step(g, dt).x),
        in_i64(vs[i].position.y + tri_num(n) * grav_step(g, dt).y),
        in_i64(vs[i].position.z + tri_num(n) * grav_step(g, dt).z),
    ensures
        iter_update(vs, Seq::<Spring>::empty(), g, dt, None, n).len() == vs.len(),
        iter_update(vs, Seq::<Spring>::empty(), g, dt, None, n)[i].mass == vs[i].mass,
        iter_update(vs, Seq::<Spring>::empty(), g, dt, None, n)[i].position.x as int == vs[i].position.x
            + tri_num(n) * grav_step(g, dt).x,
        iter_update(vs, Seq::<Spring>::empty(), g, dt, None, n)[i].position.y as int == vs[i].position.y
            + tri_num(n) * grav_step(g, dt).y,
        iter_update(vs, Seq::<Spring>::empty(), g, dt, None, n)[i].position.z as int == vs[i].position.z
            + tri_num(n) * grav_step(g, dt).z,
        n == 0 ==> iter_update(vs, Seq::<Spring>::empty(), g, dt, None, n)[i] == vs[i],
        n >= 1 ==> iter_update(vs, Seq::<Spring>::empty(), g, dt, None, n)[i].old_position.x as int
            == vs[i].position.x + tri_num((n - 1) as nat) * grav_step(g, dt).x,
        n >= 1 ==> iter_update(vs, Seq::<Spring>::empty(), g, dt, None, n)[i].old_position.y as int
            == vs[i].position.y + tri_num((n - 1) as nat) * grav_step(g, dt).y,
        n >= 1 ==> iter_update(vs, Seq::<Spring>::empty(), g, dt, None, n)[i].old_position.z as int
            == vs[i].position.z + tri_num((n - 1) as nat) * grav_step(g, dt).z,
    decreases n,
{
    let empty = Seq::<Spring>::empty();
    let c = grav_step(g, dt);
    if n >= 1 {
        let m = (n - 1) as nat;
        lemma_tri_num_props(m, n);
        lemma_scaled_in_range(c.x as int, tri_num(m), tri_num(n), vs[i].position.x as int);
        lemma_scaled_in_range(c.y as int, tri_num(m), tri_num(n), vs[i].position.y as int);
        lemma_scaled_in_range(c.z as int, tri_num(m), tri_num(n), vs[i].position.z as int);
        lemma_constant_gravity_free_fall(vs, g, dt, m, i);
        let prev = iter_update(vs, empty, g, dt, None, m);
        let gvs = grav_phase(prev, g, None);
        assert(springs_phase(gvs, empty, 0, None) == gvs);
        let out = verlet_phase(gvs, dt, None);
        assert(iter_update(vs, empty, g, dt, None, n) == out);
        assert(gvs[i] == (Vertex { acceleration: g, ..prev[i] }));
        assert(out[i] == verlet_vertex(gvs[i], dt));
        if m >= 1 {
            lemma_tri_num_props((m - 1) as nat, n);
            lemma_scaled_in_range(
                c.x as int,
                tri_num((m - 1) as nat),
                tri_num(n),
                vs[i].position.x as int,
            );
            lemma_scaled_in_range(
                c.y as int,
                tri_num((m - 1) as nat),
                tri_num(n),
                vs[i].position.y as int,
            );
            lemma_scaled_in_range(
                c.z as int,
                tri_num((m - 1) as nat),
                tri_num(n),
                vs[i].position.z as int,
            );
        }
        lemma_free_fall_scalar(
            vs[i].position.x as int,
            c.x as int,
            m,
            n,
            prev[i].position.x as int,
            prev[i].old_position.x as int,
        );
        lemma_free_fall_scalar(
            vs[i].position.y as int,
            c.y as int,
            m,
            n,
            prev[i].position.y as int,
            prev[i].old_position.y as int,
        );
        lemma_free_fall_scalar(
            vs[i].position.z as int,
            c.z as int,
            m,
            n,
            prev[i].position.z as int,
            prev[i].old_position.z as int,
        );
    }
}

/// Whether `i` is the dragged vertex.
fn same_vertex(dragged: Option<usize>, i: usize) -> (r: bool)
    ensures
        r == is_dragged(dragged, i as int),
{
    match dragged {
        Some(d) => d == i,
        None => false,
    }
}

/// Scanning one more edge extends the seen set by exactly that edge.
proof fn lemma_seen_before_extend(ind: Seq<u32>, j: int, e: (int, int))
    requires
        j >= 0,
    ensures
        seen_before(ind, j + 1, e) <==> (seen_before(ind, j, e) || edge_at(ind, j) == e),
{
    if seen_before(ind, j + 1, e) {
        let k = choose|k: int| 0 <= k < j + 1 && #[trigger] edge_at(ind, k) == e;
        if k < j {
            assert(seen_before(ind, j, e));
        }
    }
    if seen_before(ind, j, e) {
        let k = choose|k: int| 0 <= k < j && #[trigger] edge_at(ind, k) == e;
        assert(0 <= k < j + 1 && edge_at(ind, k) == e);
    }
    if edge_at(ind, j) == e {
        assert(0 <= j < j + 1 && edge_at(ind, j) == e);
    }
}

/// Pushing onto a sequence extends its membership by exactly that element.
proof fn lemma_push_contains(s: Seq<(usize, usize)>, q: (usize, usize), p: (usize, usize))
    ensures
        s.push(q).contains(p) <==> (s.contains(p) || p == q),
{
    if s.push(q).contains(p) {
        let i = choose|i: int| 0 <= i < s.push(q).len() && s.push(q)[i] == p;
        if i < s.len() {
            assert(s[i] == p);
            assert(s.contains(p));
        } else {
            assert(p == q);
        }
    }
    if s.contains(p) {
        let i = choose|i: int| 0 <= i < s.len() && s[i] == p;
        assert(s.push(q)[i] == p);
    }
    if p == q {
        assert(s.push(q)[s.len() as int] == p);
    }
}

/// Whether `seen` holds the pair `(a, b)`.
fn contains_edge(seen: &Vec<(usize, usize)>, a: usize, b: usize) -> (r: bool)
    ensures
        r == seen@.contains((a, b)),
{
    let mut k: usize = 0;
    while k < seen.len()
        invariant
            k <= seen@.len(),
            forall|i: int| 0 <= i < k ==> seen@[i] != (a, b),
        decreases seen@.len() - k,
    {
        let p = seen[k];
        if p.0 == a && p.1 == b {
            proof {
                assert(seen@[k as int] == (a, b));
            }
            return true;
        }
        k += 1;
    }
    false
}

impl Default for Physics {
    /// An engine with no springs and the default time step and gravity.
    fn default() -> (r: Physics)
        ensures
            r.springs@ == Seq::<Spring>::empty(),
            r.time_step == DEFAULT_TIME_STEP,
            r.gravity == default_gravity(),
    {
        Physics {
            springs: Vec::new(),
            time_step: DEFAULT_TIME_STEP,
            gravity: Vec3 { x: 0, y: GRAVITY_Y, z: 0 },
        }
    }
}

impl Physics {
    /// An engine with no springs and the default time step and gravity.
    pub fn new() -> (r: Physics)
        ensures
            r.springs@ == Seq::<Spring>::empty(),
            r.time_step == DEFAULT_TIME_STEP,
            r.gravity == default_gravity(),
    {
        Physics::default()
    }

    /// Derive springs from a mesh's triangles and append them to `springs`.
    ///
    /// The triangle edges are scanned in index order, each in canonical
    /// (smaller endpoint first) form; the first occurrence of each edge
    /// yields one spring whose rest length is the distance between the two
    /// endpoints at this moment. An edge shared by several triangles yields
    /// a single spring. Edges already present in `springs` before the call
    /// are not consulted for deduplication.
    pub fn init_springs(&mut self, mesh: &Mesh)
        requires
            mesh.wf(),
        ensures
            final(self).springs@ == old(self).springs@ + spring_seq(
                mesh.vertices@,
                mesh.indices@,
                num_edges(mesh.indices@),
            ),
            final(self).time_step == old(self).time_step,
            final(self).gravity == old(self).gravity,
            springs_wf(old(self).springs@, mesh.vertices@.len() as int) ==> springs_wf(
                final(self).springs@,
                mesh.vertices@.len() as int,
            ),
    {
        let ghost vs = mesh.vertices@;
        let ghost ind = mesh.indices@;
        let ghost springs0 = self.springs@;
        let mut seen: Vec<(usize, usize)> = Vec::new();
        let n_tri = mesh.indices.len() / 3;
        proof {
            vstd::arithmetic::div_mod::lemma_fundamental_div_mod(ind.len() as int, 3);
        }
        let mut j: usize = 0;
        while j < 3 * n_tri
            invariant
                mesh.wf(),
                vs == mesh.vertices@,
                ind == mesh.indices@,
                n_tri == ind.len() as int / 3,
                3 * n_tri <= ind.len(),
                ind.len() <= usize::MAX,
                j <= 3 * n_tri,
                self.springs@ == springs0 + spring_seq(vs, ind, j as int),
                forall|p: (usize, usize)| #[trigger] seen@.contains(p) <==> seen_before(
                    ind,
                    j as int,
                    (p.0 as int, p.1 as int),
                ),
                self.time_step == old(self).time_step,
                self.gravity == old(self).gravity,
                springs0 == old(self).springs@,
                springs_wf(spring_seq(vs, ind, j as int), vs.len() as int),
            decreases 3 * n_tri - j,
        {
            let t = j / 3;
            let ia = mesh.indices[3 * t] as usize;
            let ib = mesh.indices[3 * t + 1] as usize;
            let ic = mesh.indices[3 * t + 2] as usize;
            let r = j % 3;
            let (u, v) = if r == 0 {
                (ia, ib)
            } else if r == 1 {
                (ib, ic)
            } else {
                (ic, ia)
            };
            let (a, b) = if u < v {
                (u, v)
            } else {
                (v, u)
            };
            proof {
                assert((a as int, b as int) == edge_at(ind, j as int));
            }
            let ghost seen_pre = seen@;
            let ghost j0 = j as int;
            let fresh = !contains_edge(&seen, a, b);
            if fresh {
                seen.push((a, b));
                let pa = mesh.vertices[a].position;
                let pb = mesh.vertices[b].position;
                let rest = v3_magnitude(v3_diff(pa, pb));
                self.springs.push(
                    Spring {
                        vertex_a_index: a,
                        vertex_b_index: b,
                        rest_length: rest,
                        stiffness: SPRING_STIFFNESS,
                        damping: SPRING_DAMPING,
                    },
                );
                proof {
                    assert(!seen_before(ind, j0, edge_at(ind, j0)));
                    assert(self.springs@ =~= springs0 + spring_seq(vs, ind, j0 + 1));
                }
            } else {
                proof {
                    assert(seen_before(ind, j0, edge_at(ind, j0)));
                    assert(self.springs@ =~= springs0 + spring_seq(vs, ind, j0 + 1));
                }
            }
            j += 1;
            proof {
                assert forall|p: (usize, usize)|
                    #[trigger] seen@.contains(p) <==> seen_before(
                        ind,
                        j0 + 1,
                        (p.0 as int, p.1 as int),
                    ) by {
                    let pi = (p.0 as int, p.1 as int);
                    lemma_seen_before_extend(ind, j0, pi);
                    if fresh {
                        lemma_push_contains(seen_pre, (a, b), p);
                        if pi == (a as int, b as int) {
                            assert(p == (a, b));
                        }
                    } else {
                        if pi == (a as int, b as int) {
                            assert(p == (a, b));
                        }
                    }
                }
            }
        }
        proof {
            assert(j as int == num_edges(ind));
        }
    }

    /// Advance the mesh by one simulation step.
    ///
    /// Gravity is written into every vertex's acceleration, each spring
    /// then adds its force to its endpoints' accelerations, and every
    /// vertex finally takes a Verlet step — except that the dragged
    /// vertex, if any, is left entirely untouched throughout, massless
    /// (pinned) vertices receive no spring force, and massless vertices
    /// are excluded from integration, so no force moves them.
    pub fn update(&self, mesh: &mut Mesh, dragged_vertex_index: Option<usize>)
        requires
            springs_wf(self.springs@, old(mesh).vertices@.len() as int),
        ensures
            final(mesh).vertices@ == update_spec(
                old(mesh).vertices@,
                self.springs@,
                self.gravity,
                self.time_step as int,
                dragged_vertex_index,
            ),
            final(mesh).indices@ == old(mesh).indices@,
    {
        let ghost vs0 = mesh.vertices@;
        let n = mesh.vertices.len();

        // Gravity phase.
        let mut i: usize = 0;
        while i < n
            invariant
                n == vs0.len(),
                mesh.vertices@.len() == n,
                i <= n,
                forall|k: int| 0 <= k < i ==> mesh.vertices@[k] == grav_phase(
                    vs0,
                    self.gravity,
                    dragged_vertex_index,
                )[k],
                forall|k: int| i <= k < n ==> mesh.vertices@[k] == vs0[k],
                mesh.indices@ == old(mesh).indices@,
            decreases n - i,
        {
            if !same_vertex(dragged_vertex_index, i) {
                mesh.vertices[i].acceleration = self.gravity;
            }
            i += 1;
        }
        proof {
            assert(mesh.vertices@ =~= grav_phase(vs0, self.gravity, dragged_vertex_index));
        }
        let ghost vs_g = mesh.vertices@;

        // Spring phase.
        let mut s: usize = 0;
        while s < self.springs.len()
            invariant
                springs_wf(self.springs@, n as int),
                vs_g.len() == n,
                s <= self.springs@.len(),
                mesh.vertices@ == springs_phase(vs_g, self.springs@, s as int, dragged_vertex_index),
                mesh.vertices@.len() == n,
                mesh.indices@ == old(mesh).indices@,
            decreases self.springs@.len() - s,
        {
            let ghost cur = mesh.vertices@;
            let spring = self.springs[s];
            let a = spring.vertex_a_index;
            let b = spring.vertex_b_index;
            let vertex_a = mesh.vertices[a];
            let vertex_b = mesh.vertices[b];
            let delta = v3_diff(vertex_a.position, vertex_b.position);
            let distance = v3_magnitude(delta);
            if distance > COINCIDENT_DISTANCE {
                let direction = v3_div_scalar(delta, distance);
                let stretch = sub_fx(distance, spring.rest_length);
                let spring_force = v3_scaled(direction, mul_fx(spring.stiffness, stretch));
                let rel_vel = v3_diff(
                    v3_diff(vertex_a.position, vertex_a.old_position),
                    v3_diff(vertex_b.position, vertex_b.old_position),
                );
                let damping_force = v3_scaled(
                    direction,
                    mul_fx(spring.damping, v3_dot_product(rel_vel, direction)),
                );
                let total_force = v3_sum(spring_force, damping_force);
                if !same_vertex(dragged_vertex_index, a) && vertex_a.mass > 0 {
                    let relief = v3_div_scalar(total_force, vertex_a.mass);
                    mesh.vertices[a].acceleration = v3_diff(vertex_a.acceleration, relief);
                }
                if !same_vertex(dragged_vertex_index, b) && vertex_b.mass > 0 {
                    let relief = v3_div_scalar(total_force, vertex_b.mass);
                    let current = mesh.vertices[b].acceleration;
                    mesh.vertices[b].acceleration = v3_sum(current, relief);
                }
                proof {
                    assert(mesh.vertices@ =~= spring_apply(cur, spring, dragged_vertex_index));
                }
            }
            s += 1;
        }
        let ghost vs_s = mesh.vertices@;
        proof {
            assert(vs_s == springs_phase(
                vs_g,
                self.springs@,
                self.springs@.len() as int,
                dragged_vertex_index,
            ));
        }

        // Verlet integration phase.
        let mut i2: usize = 0;
        while i2 < n
            invariant
                n == vs_s.len(),
                mesh.vertices@.len() == n,
                i2 <= n,
                forall|k: int| 0 <= k < i2 ==> mesh.vertices@[k] == verlet_phase(
                    vs_s,
                    self.time_step as int,
                    dragged_vertex_index,
                )[k],
                forall|k: int| i2 <= k < n ==> mesh.vertices@[k] == vs_s[k],
                mesh.indices@ == old(mesh).indices@,
            decreases n - i2,
        {
            if !same_vertex(dragged_vertex_index, i2) {
                let vtx = mesh.vertices[i2];
                if vtx.mass != 0 {
                    let vel = v3_diff(vtx.position, vtx.old_position);
                    let step = v3_scaled(
                        v3_scaled(vtx.acceleration, self.time_step),
                        self.time_step,
                    );
                    mesh.vertices[i2].position = v3_sum(v3_sum(vtx.position, vel), step);
                    mesh.vertices[i2].old_position = vtx.position;
                }
            }
            i2 += 1;
        }
        proof {
            assert(mesh.vertices@ =~= verlet_phase(
                vs_s,
                self.time_step as int,
                dragged_vertex_index,
            ));
        }
    }
}

} // verus!
