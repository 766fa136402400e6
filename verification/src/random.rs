//! The source of random grid positions.

use rand::Rng;
use vstd::prelude::*;

verus! {

/// Draws one integer from the half-open range `low..high`.
///
/// Trusted: the body calls `gen_range` of the `rand` crate on the generator
/// that `rand::thread_rng` hands out. The contract claims only that the value
/// lies in the range, which is what `gen_range` documents for a range that is
/// not empty; on an empty range it panics, so `requires` leaves that out.
/// Nothing is claimed about which value comes back: two calls may differ.
/// The generator is seeded from the operating system when a thread first asks
/// for it, and `rand` panics if the system cannot provide the seed; no
/// argument decides that, so the contract cannot leave it out.
#[verifier::external_body]
pub(crate) fn random_in_range(low: i32, high: i32) -> (r: i32)
    requires
        low < high,
    ensures
        low <= r < high,
{
    rand::thread_rng().gen_range(low..high)
}

} // verus!
