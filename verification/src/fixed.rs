//! Fixed-point sample arithmetic.
//!
//! Amplitudes, seconds and frequencies are stored as integer counts of
//! millionths ([`SCALE`] steps per unit).  Every operation is exact integer
//! arithmetic; products are scaled back down rounding toward zero, and
//! out-of-range results saturate at the `i64` limits.

use vstd::prelude::*;

verus! {

/// Steps per unit of the fixed-point encoding (one millionth each).
pub const SCALE: i64 = 1_000_000;

/// Clamp an unbounded integer into the `i64` range.
pub open spec fn sat64(x: int) -> int {
    if x > i64::MAX as int {
        i64::MAX as int
    } else if x < i64::MIN as int {
        i64::MIN as int
    } else {
        x
    }
}

/// Integer division rounding toward zero (the rounding of hardware division).
pub open spec fn div_trunc(n: int, d: int) -> int
    recommends
        d >= 1,
{
    if n >= 0 {
        n / d
    } else {
        -((-n) / d)
    }
}

/// Division rounding toward zero, for a divisor of either sign.
pub open spec fn div_trunc_signed(n: int, d: int) -> int
    recommends
        d != 0,
{
    if d >= 1 {
        div_trunc(n, d)
    } else {
        div_trunc(-n, -d)
    }
}

/// The saturating sum of two samples.
pub open spec fn sat_add_spec(a: int, b: int) -> int {
    sat64(a + b)
}

/// The fixed-point product of two samples: the integer product scaled back
/// down by [`SCALE`], rounding toward zero, clamped into range.
pub open spec fn fp_mul_spec(a: int, b: int) -> int {
    sat64(div_trunc(a * b, SCALE as int))
}

/// Saturating addition of two samples.
pub fn sat_add(a: i64, b: i64) -> (r: i64)
    ensures
        r as int == sat_add_spec(a as int, b as int),
{
    let s: i128 = a as i128 + b as i128;
    if s > i64::MAX as i128 {
        i64::MAX
    } else if s < i64::MIN as i128 {
        i64::MIN
    } else {
        s as i64
    }
}

/// Truncating division on wide integers, computed through unsigned division.
pub fn div_trunc_exec(n: i128, d: i128) -> (r: i128)
    requires
        d >= 1,
        n > i128::MIN,
    ensures
        r == div_trunc(n as int, d as int),
{
    if n >= 0 {
        let q: u128 = (n as u128) / (d as u128);
        proof {
            assert(q <= n as u128) by {
                assert(n as u128 / (d as u128) <= n as u128);
            }
        }
        q as i128
    } else {
        let m: u128 = (-n) as u128;
        let q: u128 = m / (d as u128);
        proof {
            assert(q <= m);
        }
        -(q as i128)
    }
}

/// The fixed-point product of two samples.
pub fn fp_mul(a: i64, b: i64) -> (r: i64)
    ensures
        r as int == fp_mul_spec(a as int, b as int),
{
    proof {
        let ai = a as int;
        let bi = b as int;
        assert(-0x4000_0000_0000_0000_0000_0000_0000_0000 <= ai * bi
            <= 0x4000_0000_0000_0000_0000_0000_0000_0000) by (nonlinear_arith)
            requires
                -0x8000_0000_0000_0000 <= ai <= 0x7FFF_FFFF_FFFF_FFFF,
                -0x8000_0000_0000_0000 <= bi <= 0x7FFF_FFFF_FFFF_FFFF,
        ;
    }
    let p: i128 = (a as i128) * (b as i128);
    let q: i128 = div_trunc_exec(p, SCALE as i128);
    if q > i64::MAX as i128 {
        i64::MAX
    } else if q < i64::MIN as i128 {
        i64::MIN
    } else {
        q as i64
    }
}

/// `floor(a * b / d)` computed through wide intermediates.
pub fn mul_div_floor(a: u64, b: u64, d: u64) -> (r: u64)
    requires
        d >= 1,
        a as int * b as int / d as int <= u64::MAX as int,
    ensures
        r as int == a as int * b as int / d as int,
{
    proof {
        let ai = a as int;
        let bi = b as int;
        assert(ai * bi <= 0xFFFF_FFFF_FFFF_FFFF * 0xFFFF_FFFF_FFFF_FFFF) by (nonlinear_arith)
            requires
                0 <= ai <= 0xFFFF_FFFF_FFFF_FFFF,
                0 <= bi <= 0xFFFF_FFFF_FFFF_FFFF,
        ;
        assert(ai * bi / (d as int) <= u64::MAX as int);
    }
    let p: u128 = (a as u128) * (b as u128);
    let q: u128 = p / (d as u128);
    q as u64
}

} // verus!
