use vstd::prelude::*;
use vstd::std_specs::cmp::PartialOrdIs;
use vstd::std_specs::cmp::PartialOrdSpec;

verus! {

/// The value that `clamp(val, min, max)` returns, in terms of the ordering
/// that `T`'s `PartialOrd` implementation describes.
pub open spec fn clamped<T: PartialOrd>(val: T, min: T, max: T) -> T {
    if val.is_lt(&min) {
        min
    } else if val.is_gt(&max) {
        max
    } else {
        val
    }
}

/// Restricts `val` to the range from `min` to `max`: values below `min` give
/// `min`, values above `max` give `max`, every other value is returned as it is.
pub fn clamp<T: PartialOrd>(val: T, min: T, max: T) -> (r: T)
    ensures
        T::obeys_partial_cmp_spec() ==> r == clamped(val, min, max),
        r == val || r == min || r == max,
{
    if val < min {
        min
    } else if val > max {
        max
    } else {
        val
    }
}

} // verus!
