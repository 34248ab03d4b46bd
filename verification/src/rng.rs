//! The trusted boundary to the `rand` crate.
//!
//! Every random draw the core makes goes through one of these wrappers.  A
//! random result depends on more than the arguments, so the contracts state
//! only what holds of every outcome.

use vstd::prelude::*;

verus! {

/// Relies on `rand::random_range` over `lo..hi`: the drawn value lies in
/// the half-open range.  The range must be non-empty, since `random_range`
/// panics on an empty one.
#[verifier::external_body]
pub(crate) fn random_in_range(lo: i32, hi: i32) -> (r: i32)
    requires
        lo < hi,
    ensures
        lo <= r < hi,
{
    rand::random_range(lo..hi)
}

/// Relies on `rand::random::<bool>`: a coin flip.  Nothing is promised of
/// the outcome.
#[verifier::external_body]
pub(crate) fn random_flip() -> (r: bool) {
    rand::random()
}

} // verus!
