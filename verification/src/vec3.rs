//! 3-component vectors of fixed-point scalars, with the componentwise
//! operations the simulation needs: sum, difference, scaling, division by a
//! scalar, dot product and Euclidean magnitude.

use vstd::prelude::*;

use crate::fixed::{
    add_fx, div_fx, fx_add, fx_div, fx_mul, fx_sub, isqrt, isqrt_u128, lemma_isqrt_bounds,
    mul_fx, sat64, sub_fx,
};

verus! {

/// A vector in 3-space; each component is an `i64` count of micro-units.
#[derive(Clone, Copy, Debug, PartialEq, Eq, Structural)]
pub struct Vec3 {
    pub x: i64,
    pub y: i64,
    pub z: i64,
}

/// Componentwise saturating sum.
pub open spec fn v3_add(a: Vec3, b: Vec3) -> Vec3 {
    Vec3 {
        x: fx_add(a.x as int, b.x as int) as i64,
        y: fx_add(a.y as int, b.y as int) as i64,
        z: fx_add(a.z as int, b.z as int) as i64,
    }
}

/// Componentwise saturating difference.
pub open spec fn v3_sub(a: Vec3, b: Vec3) -> Vec3 {
    Vec3 {
        x: fx_sub(a.x as int, b.x as int) as i64,
        y: fx_sub(a.y as int, b.y as int) as i64,
        z: fx_sub(a.z as int, b.z as int) as i64,
    }
}

/// Each component multiplied by the fixed-point scalar `s`.
pub open spec fn v3_scale(v: Vec3, s: int) -> Vec3 {
    Vec3 {
        x: fx_mul(v.x as int, s) as i64,
        y: fx_mul(v.y as int, s) as i64,
        z: fx_mul(v.z as int, s) as i64,
    }
}

/// Each component divided by the positive fixed-point scalar `s`.
pub open spec fn v3_div_s(v: Vec3, s: int) -> Vec3
    recommends
        s > 0,
{
    Vec3 {
        x: fx_div(v.x as int, s) as i64,
        y: fx_div(v.y as int, s) as i64,
        z: fx_div(v.z as int, s) as i64,
    }
}

/// Fixed-point dot product: the componentwise products summed left to right.
pub open spec fn v3_dot(a: Vec3, b: Vec3) -> int {
    fx_add(
        fx_add(fx_mul(a.x as int, b.x as int), fx_mul(a.y as int, b.y as int)),
        fx_mul(a.z as int, b.z as int),
    )
}

/// Euclidean magnitude in micro-units: the integer square root of the exact
/// sum of squared components, clamped into the `i64` range. The three
/// components are micro-unit counts, so the sum of their squares is the
/// squared length scaled by `SCALE * SCALE`, and its integer square root is
/// the length in micro-units, rounded down.
pub open spec fn v3_mag(v: Vec3) -> int {
    sat64(isqrt(v.x as int * v.x as int + v.y as int * v.y as int + v.z as int * v.z as int))
}

/// The zero vector.
pub open spec fn v3_zero() -> Vec3 {
    Vec3 { x: 0, y: 0, z: 0 }
}

impl Vec3 {
    /// Build a vector from its three components.
    pub fn new(x: i64, y: i64, z: i64) -> (r: Vec3)
        ensures
            r == (Vec3 { x, y, z }),
    {
        Vec3 { x, y, z }
    }

    /// The zero vector.
    pub fn zeros() -> (r: Vec3)
        ensures
            r == v3_zero(),
    {
        Vec3 { x: 0, y: 0, z: 0 }
    }
}

/// Sum of two vectors.
pub fn v3_sum(a: Vec3, b: Vec3) -> (r: Vec3)
    ensures
        r == v3_add(a, b),
{
    Vec3 { x: add_fx(a.x, b.x), y: add_fx(a.y, b.y), z: add_fx(a.z, b.z) }
}

/// Difference of two vectors.
pub fn v3_diff(a: Vec3, b: Vec3) -> (r: Vec3)
    ensures
        r == v3_sub(a, b),
{
    Vec3 { x: sub_fx(a.x, b.x), y: sub_fx(a.y, b.y), z: sub_fx(a.z, b.z) }
}

/// A vector scaled by a fixed-point scalar.
pub fn v3_scaled(v: Vec3, s: i64) -> (r: Vec3)
    ensures
        r == v3_scale(v, s as int),
{
    Vec3 { x: mul_fx(v.x, s), y: mul_fx(v.y, s), z: mul_fx(v.z, s) }
}

/// A vector divided by a positive fixed-point scalar.
pub fn v3_div_scalar(v: Vec3, s: i64) -> (r: Vec3)
    requires
        s > 0,
    ensures
        r == v3_div_s(v, s as int),
{
    Vec3 { x: div_fx(v.x, s), y: div_fx(v.y, s), z: div_fx(v.z, s) }
}

/// Fixed-point dot product of two vectors.
pub fn v3_dot_product(a: Vec3, b: Vec3) -> (r: i64)
    ensures
        r as int == v3_dot(a, b),
{
    add_fx(add_fx(mul_fx(a.x, b.x), mul_fx(a.y, b.y)), mul_fx(a.z, b.z))
}

/// Euclidean magnitude of a vector in micro-units, rounded down.
pub fn v3_magnitude(v: Vec3) -> (r: i64)
    ensures
        r as int == v3_mag(v),
        r >= 0,
{
    let xx: u128 = sq_u128(v.x);
    let yy: u128 = sq_u128(v.y);
    let zz: u128 = sq_u128(v.z);
    let s: u128 = xx + yy + zz;
    let root: u64 = isqrt_u128(s);
    proof {
        lemma_isqrt_bounds(s as int);
    }
    if root > i64::MAX as u64 {
        i64::MAX
    } else {
        root as i64
    }
}

/// Square of an `i64`, exact, as an unsigned 128-bit value.
fn sq_u128(a: i64) -> (r: u128)
    ensures
        r as int == a as int * a as int,
        r <= 0x4000_0000_0000_0000_0000_0000_0000_0000u128,
{
    let wide: i128 = a as i128;
    proof {
        assert(wide as int * wide as int <= 0x8000_0000_0000_0000 * 0x8000_0000_0000_0000)
            by (nonlinear_arith)
            requires
                -0x8000_0000_0000_0000 <= wide as int <= 0x7FFF_FFFF_FFFF_FFFF,
        ;
        assert(wide as int * wide as int >= 0) by (nonlinear_arith);
    }
    let p: i128 = wide * wide;
    p as u128
}

} // verus!
