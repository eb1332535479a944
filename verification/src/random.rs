//! Random draws.

use vstd::prelude::*;
use rand::Rng;

verus! {

/// Draws an integer from `[low, high)` with `Rng::gen_range` of the rand crate, on the
/// generator of the current thread. That method panics unless `low < high`, hence the
/// precondition, and is documented to return a value that is at least `low` and less than
/// `high`. Nothing else is claimed of the value: two draws may differ.
#[verifier::external_body]
pub(crate) fn random_range(low: i32, high: i32) -> (r: i32)
    requires
        low < high,
    ensures
        low <= r < high,
{
    rand::thread_rng().gen_range(low, high)
}

/// Flips a coin with `rand::random` of the rand crate. Nothing is claimed of the outcome.
#[verifier::external_body]
pub(crate) fn random_bool() -> (b: bool) {
    rand::random()
}

} // verus!
