//! Random draws.
use rand::Rng;
use vstd::prelude::*;

verus! {

/// Draws a number between `low` and `high`, both included.
///
/// Calls `rand::Rng::gen_range` on `rand::thread_rng()` with the range
/// `low..=high`. The contract claims only that the number lies in the range;
/// which one it is depends on chance. `gen_range` panics on an empty range,
/// which `requires` leaves out.
#[verifier::external_body]
pub(crate) fn draw_between(low: u64, high: u64) -> (drawn: u64)
    requires
        low <= high,
    ensures
        low <= drawn <= high,
{
    rand::thread_rng().gen_range(low..=high)
}

} // verus!
