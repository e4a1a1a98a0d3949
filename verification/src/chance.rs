//! The one place where chance enters.
use rand::Rng;
use vstd::prelude::*;

verus! {

/// Draws a number from `low` up to, but not including, `high`.
///
/// This calls `rand::rng()` and `Rng::random_range` on the range
/// `low..high`. Nothing is proved of that call. Its contract claims what the
/// method documents: the range must not be empty, and the number drawn lies
/// within it. Which number comes is left open, so two calls may differ. The
/// generator of the thread is seeded from the operating system on first use
/// and gives up if that source fails.
#[verifier::external_body]
pub(crate) fn draw_between(low: u32, high: u32) -> (drawn: u32)
    requires
        low < high,
    ensures
        low <= drawn < high,
{
    rand::rng().random_range(low..high)
}

} // verus!
