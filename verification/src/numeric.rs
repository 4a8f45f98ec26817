//! Saturating arithmetic on signed 32-bit numbers.

use vstd::prelude::*;

verus! {

/// The 32-bit number nearest to `v`.
pub open spec fn saturate(v: int) -> int {
    if v > i32::MAX {
        i32::MAX as int
    } else if v < i32::MIN {
        i32::MIN as int
    } else {
        v
    }
}

/// The sum of two numbers, held inside the 32-bit range.
pub fn saturating_sum(a: i32, b: i32) -> (r: i32)
    ensures
        r == saturate(a + b),
{
    let wide: i64 = a as i64 + b as i64;
    clamp_wide(wide)
}

/// The negated number; the smallest one becomes the largest.
pub fn saturating_negation(a: i32) -> (r: i32)
    ensures
        r == saturate(-a),
{
    let wide: i64 = -(a as i64);
    clamp_wide(wide)
}

/// The 32-bit number nearest to a wide one.
pub fn clamp_wide(wide: i64) -> (r: i32)
    ensures
        r == saturate(wide as int),
{
    if wide > 2147483647 {
        2147483647
    } else if wide < -2147483648 {
        -2147483648
    } else {
        wide as i32
    }
}

/// A number that fits stays as it is, and of any other the nearest one that fits is taken.
pub proof fn saturation_takes_the_nearest(v: int, other: i32)
    ensures
        i32::MIN <= saturate(v) <= i32::MAX,
        i32::MIN <= v <= i32::MAX ==> saturate(v) == v,
        other <= v ==> other <= saturate(v) <= v,
        other >= v ==> other >= saturate(v) >= v,
{
}

} // verus!
