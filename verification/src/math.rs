//! Arithmetic helpers.

use vstd::prelude::*;
use vstd::std_specs::cmp::{PartialOrdIs, PartialOrdSpec};

verus! {

/// `value` held to the range from `min` to `max`: first raised to `min` where it is below,
/// then lowered to `max` where it is above.
pub open spec fn spec_clamp<T: PartialOrd>(value: T, min: T, max: T) -> T {
    let raised = if value.is_lt(&min) {
        min
    } else {
        value
    };
    if raised.is_gt(&max) {
        max
    } else {
        raised
    }
}

/// Holds `value` to the range from `min` to `max`.
#[inline]
pub fn clamp<T>(value: T, min: T, max: T) -> (clamped: T) where T: PartialOrd
    ensures
        T::obeys_partial_cmp_spec() ==> clamped == spec_clamp(value, min, max),
{
    let mut clamp = value;
    if clamp < min {
        clamp = min;
    }
    if clamp > max {
        clamp = max;
    }
    clamp
}

} // verus!
