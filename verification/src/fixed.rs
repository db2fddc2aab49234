//! Saturating fixed-point arithmetic on `i64` micro-units.
//!
//! A scalar quantity (a coordinate, a mass, a time step, a force component)
//! is an `i64` counting millionths: the value `1_500_000` stands for `1.5`.
//! Addition, subtraction, multiplication and division are exact integer
//! operations whose results are truncated toward zero where a division
//! occurs and clamped into the `i64` range where they would overflow it.

use vstd::prelude::*;

verus! {

/// Number of fixed-point units in one whole: quantities count millionths.
pub const SCALE: i64 = 1_000_000;

/// Clamp an unbounded integer into the `i64` range.
pub open spec fn sat64(x: int) -> int {
    if x > i64::MAX {
        i64::MAX as int
    } else if x < i64::MIN {
        i64::MIN as int
    } else {
        x
    }
}

/// Whether an unbounded integer lies in the `i64` range, where saturating
/// arithmetic is exact.
pub open spec fn in_i64(x: int) -> bool {
    i64::MIN <= x <= i64::MAX
}

/// Integer division truncated toward zero (for a positive divisor), the
/// rounding used by all fixed-point operations here.
pub open spec fn tdiv(n: int, d: int) -> int
    recommends
        d > 0,
{
    if n >= 0 {
        n / d
    } else {
        -((-n) / d)
    }
}

/// Fixed-point addition, clamped into the `i64` range.
pub open spec fn fx_add(a: int, b: int) -> int {
    sat64(a + b)
}

/// Fixed-point subtraction, clamped into the `i64` range.
pub open spec fn fx_sub(a: int, b: int) -> int {
    sat64(a - b)
}

/// Fixed-point multiplication: the product of two micro-unit quantities,
/// rescaled by `SCALE`, truncated toward zero and clamped.
pub open spec fn fx_mul(a: int, b: int) -> int {
    sat64(tdiv(a * b, SCALE as int))
}

/// Fixed-point division by a positive divisor: the quotient of two
/// micro-unit quantities, rescaled by `SCALE`, truncated toward zero and
/// clamped.
pub open spec fn fx_div(a: int, b: int) -> int
    recommends
        b > 0,
{
    sat64(tdiv(a * (SCALE as int), b))
}

/// Largest `r` with `r * r <= n` (and `0` for `n <= 0`).
pub open spec fn isqrt(n: int) -> int
    decreases n,
{
    if n <= 0 {
        0
    } else {
        let r = isqrt(n - 1);
        if (r + 1) * (r + 1) <= n {
            r + 1
        } else {
            r
        }
    }
}

/// `isqrt` returns the integer square root: the unique nonnegative `r`
/// with `r * r <= n < (r + 1) * (r + 1)`.
pub proof fn lemma_isqrt_bounds(n: int)
    requires
        n >= 0,
    ensures
        0 <= isqrt(n),
        isqrt(n) * isqrt(n) <= n,
        n < (isqrt(n) + 1) * (isqrt(n) + 1),
    decreases n,
{
    if n > 0 {
        lemma_isqrt_bounds(n - 1);
        let r = isqrt(n - 1);
        if (r + 1) * (r + 1) <= n {
            assert(n < (r + 2) * (r + 2)) by (nonlinear_arith)
                requires
                    n - 1 < (r + 1) * (r + 1),
                    0 <= r,
            ;
        }
    }
}

/// No two distinct nonnegative integers both satisfy the square-root bounds.
pub proof fn lemma_isqrt_unique(n: int, r: int)
    requires
        n >= 0,
        r >= 0,
        r * r <= n,
        n < (r + 1) * (r + 1),
    ensures
        r == isqrt(n),
{
    lemma_isqrt_bounds(n);
    let s = isqrt(n);
    if r < s {
        assert((r + 1) * (r + 1) <= s * s) by (nonlinear_arith)
            requires
                0 <= r,
                r + 1 <= s,
            ;
    }
    if s < r {
        assert((s + 1) * (s + 1) <= r * r) by (nonlinear_arith)
            requires
                0 <= s,
                s + 1 <= r,
            ;
    }
}

/// Clamp a 128-bit intermediate into the `i64` range.
fn clamp_sat(x: i128) -> (r: i64)
    ensures
        r as int == sat64(x as int),
{
    if x > i64::MAX as i128 {
        i64::MAX
    } else if x < i64::MIN as i128 {
        i64::MIN
    } else {
        x as i64
    }
}

/// Magnitude of an `i64` as an unsigned 128-bit value.
fn abs_u128(a: i64) -> (r: u128)
    ensures
        r as int == vstd::math::abs(a as int),
{
    if a >= 0 {
        a as u128
    } else {
        let wide: i128 = -(a as i128);
        wide as u128
    }
}

/// Saturating fixed-point addition.
pub fn add_fx(a: i64, b: i64) -> (r: i64)
    ensures
        r as int == fx_add(a as int, b as int),
{
    let wide: i128 = a as i128 + b as i128;
    clamp_sat(wide)
}

/// Saturating fixed-point subtraction.
pub fn sub_fx(a: i64, b: i64) -> (r: i64)
    ensures
        r as int == fx_sub(a as int, b as int),
{
    let wide: i128 = a as i128 - b as i128;
    clamp_sat(wide)
}

/// Turn an unsigned magnitude and a sign into a clamped `i64`.
fn apply_sign(mag: u128, neg: bool) -> (r: i64)
    ensures
        neg ==> r as int == sat64(-(mag as int)),
        !neg ==> r as int == sat64(mag as int),
{
    if neg {
        if mag >= 0x8000_0000_0000_0000u128 {
            i64::MIN
        } else {
            -(mag as i64)
        }
    } else {
        if mag > i64::MAX as u128 {
            i64::MAX
        } else {
            mag as i64
        }
    }
}

/// Saturating fixed-point multiplication.
pub fn mul_fx(a: i64, b: i64) -> (r: i64)
    ensures
        r as int == fx_mul(a as int, b as int),
{
    let ma = abs_u128(a);
    let mb = abs_u128(b);
    proof {
        vstd::arithmetic::mul::lemma_mul_upper_bound(
            ma as int,
            0x8000_0000_0000_0000,
            mb as int,
            0x8000_0000_0000_0000,
        );
    }
    let p: u128 = ma * mb;
    let q: u128 = p / 1_000_000u128;
    let neg = (a < 0) != (b < 0);
    proof {
        let ab = a as int * b as int;
        assert(p as int == vstd::math::abs(ab)) by (nonlinear_arith)
            requires
                ma as int == vstd::math::abs(a as int),
                mb as int == vstd::math::abs(b as int),
                p as int == ma as int * mb as int,
                ab == a as int * b as int,
        ;
        assert(neg == (ab < 0) || p == 0) by (nonlinear_arith)
            requires
                neg == ((a < 0) != (b < 0)),
                ab == a as int * b as int,
                p as int == vstd::math::abs(ab),
        ;
        assert(q as int == vstd::math::abs(ab) / 1_000_000);
        if ab >= 0 {
            assert(tdiv(ab, SCALE as int) == q as int);
        } else {
            assert(tdiv(ab, SCALE as int) == -(q as int));
        }
    }
    apply_sign(q, neg)
}

/// Saturating fixed-point division by a positive divisor.
pub fn div_fx(a: i64, b: i64) -> (r: i64)
    requires
        b > 0,
    ensures
        r as int == fx_div(a as int, b as int),
{
    let ma = abs_u128(a);
    let p: u128 = ma * 1_000_000u128;
    let q: u128 = p / (b as u128);
    let neg = a < 0;
    proof {
        let as_ = a as int * SCALE as int;
        assert(p as int == vstd::math::abs(as_)) by (nonlinear_arith)
            requires
                ma as int == vstd::math::abs(a as int),
                p as int == ma as int * 1_000_000,
                as_ == a as int * 1_000_000,
                SCALE as int == 1_000_000,
        ;
        assert(neg == (as_ < 0) || p == 0) by (nonlinear_arith)
            requires
                neg == (a < 0),
                as_ == a as int * 1_000_000,
                p as int == vstd::math::abs(as_),
        ;
        if as_ >= 0 {
            assert(tdiv(as_, b as int) == q as int);
        } else {
            assert(tdiv(as_, b as int) == -(q as int));
        }
    }
    apply_sign(q, neg)
}

/// Integer square root of a 128-bit value, by binary search.
pub fn isqrt_u128(n: u128) -> (r: u64)
    ensures
        r as int == isqrt(n as int),
{
    let mut lo: u128 = 0;
    let mut hi: u128 = 0xFFFF_FFFF_FFFF_FFFFu128;
    if n < hi {
        hi = n;
    }
    proof {
        assert((hi as int + 1) * (hi as int + 1) > n as int) by (nonlinear_arith)
            requires
                hi as int == n as int && n as int <= 0xFFFF_FFFF_FFFF_FFFF
                    || hi as int == 0xFFFF_FFFF_FFFF_FFFF && n as int
                    <= 0xFFFF_FFFF_FFFF_FFFF_FFFF_FFFF_FFFF_FFFF,
        ;
    }
    while lo < hi
        invariant
            0 <= lo <= hi <= 0xFFFF_FFFF_FFFF_FFFF,
            lo as int * lo as int <= n as int,
            (hi as int + 1) * (hi as int + 1) > n as int,
        decreases hi - lo,
    {
        let mid: u128 = lo + (hi - lo + 1) / 2;
        proof {
            assert(mid as int * mid as int
                <= 0xFFFF_FFFF_FFFF_FFFF * 0xFFFF_FFFF_FFFF_FFFF) by (nonlinear_arith)
                requires
                    0 <= mid as int <= 0xFFFF_FFFF_FFFF_FFFF,
            ;
        }
        if mid * mid <= n {
            lo = mid;
        } else {
            hi = mid - 1;
        }
    }
    proof {
        lemma_isqrt_unique(n as int, lo as int);
    }
    lo as u64
}

} // verus!
