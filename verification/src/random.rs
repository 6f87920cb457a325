//! The source of randomness for board generation.

use vstd::prelude::*;

verus! {

/// `rand::random_range` on the half-open range `low..high`, drawn from the
/// thread-local generator. The call panics on an empty range, which `requires`
/// rules out; of the value nothing is known but that it lies in the range.
#[verifier::external_body]
pub(crate) fn random_range(low: i32, high: i32) -> (value: i32)
    requires
        low < high,
    ensures
        low <= value < high,
{
    rand::random_range(low..high)
}

} // verus!
