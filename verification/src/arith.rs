use vstd::prelude::*;

verus! {

/// `value` clamped into the range of `i64`.
pub open spec fn clamp_i64(value: int) -> int {
    if value > i64::MAX {
        i64::MAX as int
    } else if value < i64::MIN {
        i64::MIN as int
    } else {
        value
    }
}

/// `value` clamped into `[low, high]`.
pub open spec fn clamp(value: int, low: int, high: int) -> int {
    if value < low {
        low
    } else if value > high {
        high
    } else {
        value
    }
}

/// `a + b`, saturating at the bounds of `i64`.
pub fn saturating_add_i64(a: i64, b: i64) -> (sum: i64)
    ensures
        sum == clamp_i64(a + b),
{
    if b > 0 && a > i64::MAX - b {
        i64::MAX
    } else if b < 0 && a < i64::MIN - b {
        i64::MIN
    } else {
        a + b
    }
}

/// `a - b`, saturating at the bounds of `i64`.
pub fn saturating_sub_i64(a: i64, b: i64) -> (difference: i64)
    ensures
        difference == clamp_i64(a - b),
{
    if b < 0 && a > i64::MAX + b {
        i64::MAX
    } else if b > 0 && a < i64::MIN + b {
        i64::MIN
    } else {
        a - b
    }
}

/// `a * b`, saturating at `u64::MAX`.
pub fn saturating_mul_u64(a: u64, b: u64) -> (product: u64)
    ensures
        product == (if a * b > u64::MAX { u64::MAX as int } else { a * b }),
{
    match a.checked_mul(b) {
        Some(product) => product,
        None => u64::MAX,
    }
}

/// `a + b`, saturating at `u64::MAX`.
pub fn saturating_add_u64(a: u64, b: u64) -> (sum: u64)
    ensures
        sum == (if a + b > u64::MAX { u64::MAX as int } else { a + b }),
{
    match a.checked_add(b) {
        Some(sum) => sum,
        None => u64::MAX,
    }
}

/// `|a - b|`.
pub fn abs_diff_u32(a: u32, b: u32) -> (difference: u32)
    ensures
        difference == (if a >= b { a - b } else { b - a }),
{
    if a >= b {
        a - b
    } else {
        b - a
    }
}

/// `numerator / denominator` rounded to the nearest integer, halves away from
/// zero (the rounding of `f64::round`).
pub open spec fn spec_round_div(numerator: int, denominator: int) -> int {
    if numerator >= 0 {
        (2 * numerator + denominator) / (2 * denominator)
    } else {
        -((-2 * numerator + denominator) / (2 * denominator))
    }
}

/// Rounds a quotient to the nearest integer, halves away from zero.
pub fn round_div(numerator: i128, denominator: i128) -> (rounded: i128)
    requires
        denominator > 0,
        -0x1000_0000_0000_0000_0000_0000_0000 <= numerator <= 0x1000_0000_0000_0000_0000_0000_0000,
        denominator <= 0x1000_0000_0000_0000_0000_0000_0000,
    ensures
        rounded == spec_round_div(numerator as int, denominator as int),
{
    if numerator >= 0 {
        (2 * numerator + denominator) / (2 * denominator)
    } else {
        let magnitude: i128 = -numerator;
        let quotient: i128 = (2 * magnitude + denominator) / (2 * denominator);
        -quotient
    }
}

} // verus!
