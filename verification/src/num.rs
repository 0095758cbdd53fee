//! Saturating and truncating arithmetic on signed 64-bit integers.

use vstd::prelude::*;

verus! {

/// `v` clamped to the range of `i64`.
pub open spec fn clamp_i64(v: int) -> int {
    if v > i64::MAX {
        i64::MAX as int
    } else if v < i64::MIN {
        i64::MIN as int
    } else {
        v
    }
}

/// The quotient of `a` by the positive `b`, rounded towards zero.
pub open spec fn div_toward_zero(a: int, b: int) -> int
    recommends
        b > 0,
{
    if a >= 0 {
        a / b
    } else {
        -((-a) / b)
    }
}

/// `a + b`, saturating at the bounds of `i64`.
pub fn saturating_add(a: i64, b: i64) -> (r: i64)
    ensures
        r == clamp_i64(a + b),
{
    if a >= 0 && b > i64::MAX - a {
        i64::MAX
    } else if a < 0 && b < i64::MIN - a {
        i64::MIN
    } else {
        a + b
    }
}

/// `a - b`, saturating at the bounds of `i64`.
pub fn saturating_sub(a: i64, b: i64) -> (r: i64)
    ensures
        r == clamp_i64(a - b),
{
    if b >= 0 && a < i64::MIN + b {
        i64::MIN
    } else if b < 0 && a > i64::MAX + b {
        i64::MAX
    } else {
        a - b
    }
}

/// `a * 1000`, saturating at the bounds of `i64`.
pub fn saturating_mul_1000(a: i64) -> (r: i64)
    ensures
        r == clamp_i64(a * 1000),
{
    if a > i64::MAX / 1000 {
        i64::MAX
    } else if a < i64::MIN / 1000 {
        i64::MIN
    } else {
        a * 1000
    }
}

/// `a / 1000`, rounded towards zero.
pub fn div_1000(a: i64) -> (r: i64)
    ensures
        r == div_toward_zero(a as int, 1000),
{
    a / 1000
}

} // verus!
