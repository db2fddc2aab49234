//! A deformable-mesh physics simulator: a spring network is derived from a
//! triangulated surface and vertex positions are advanced frame by frame with
//! Verlet integration under spring, damping and gravity forces, with support
//! for interactive vertex dragging.
//!
//! All coordinates, masses, forces and times are fixed-point numbers held in
//! `i64` micro-units (millionths of a unit); see the `fixed` module.

use vstd::prelude::*;

pub mod controller;
pub mod fixed;
pub mod mesh;
pub mod physics;
pub mod vec3;

verus! {

/// Sum of two machine integers.
pub fn add(a: i32, b: i32) -> (r: i32)
    requires
        i32::MIN <= a + b <= i32::MAX,
    ensures
        r == a + b,
{
    a + b
}

} // verus!
