//! Saturating arithmetic on signed 64-bit millisecond counts.

use vstd::prelude::*;

verus! {

/// The `i64` nearest to `value`.
pub open spec fn clamp_i64(value: int) -> i64 {
    if value > i64::MAX {
        i64::MAX
    } else if value < i64::MIN {
        i64::MIN
    } else {
        value as i64
    }
}

fn narrow(value: i128) -> (result: i64)
    ensures
        result == clamp_i64(value as int),
{
    if value > i64::MAX as i128 {
        i64::MAX
    } else if value < i64::MIN as i128 {
        i64::MIN
    } else {
        value as i64
    }
}

/// The sum of two counts, held within `i64`.
pub fn saturating_sum(left: i64, right: i64) -> (result: i64)
    ensures
        result == clamp_i64(left + right),
{
    narrow(left as i128 + right as i128)
}

/// The difference of two counts, held within `i64`.
pub fn saturating_difference(left: i64, right: i64) -> (result: i64)
    ensures
        result == clamp_i64(left - right),
{
    narrow(left as i128 - right as i128)
}

/// The product of two counts, held within `i64`.
pub fn saturating_product(left: i64, right: i64) -> (result: i64)
    ensures
        result == clamp_i64(left * right),
{
    let wide_left: i128 = left as i128;
    let wide_right: i128 = right as i128;
    assert(-0x4000_0000_0000_0000_0000_0000_0000_0000 <= wide_left * wide_right
        <= 0x4000_0000_0000_0000_0000_0000_0000_0000) by (nonlinear_arith)
        requires
            -0x8000_0000_0000_0000 <= wide_left <= 0x7fff_ffff_ffff_ffff,
            -0x8000_0000_0000_0000 <= wide_right <= 0x7fff_ffff_ffff_ffff,
    ;
    narrow(wide_left * wide_right)
}

/// An unsigned count as an `i64`, when it fits.
pub fn fit_i64(value: u128) -> (result: Option<i64>)
    ensures
        match result {
            Some(fitted) => value <= i64::MAX && fitted == value,
            None => value > i64::MAX,
        },
{
    if value <= i64::MAX as u128 {
        Some(value as i64)
    } else {
        None
    }
}

/// A value that fits is kept, and no number lies nearer to one that does not
/// than the number that is taken for it.
pub proof fn law_clamp_is_nearest(value: int, other: i64)
    ensures
        i64::MIN <= value <= i64::MAX ==> clamp_i64(value) == value,
        ({
            let distance = if value < clamp_i64(value) {
                clamp_i64(value) - value
            } else {
                value - clamp_i64(value)
            };
            let other_distance = if value < other {
                other - value
            } else {
                value - other
            };
            distance <= other_distance
        }),
        value > i64::MAX ==> clamp_i64(value) == i64::MAX,
        value < i64::MIN ==> clamp_i64(value) == i64::MIN,
{
}

} // verus!
