//! The library's single source of randomness.

use vstd::prelude::*;
use rand::RngExt;

verus! {

/// Relies on rand's `Rng::random_range` on the thread-local generator:
/// for a non-empty half-open range `lo..hi` it returns a value of that
/// range (and panics only on an empty range, which the precondition
/// rules out).  Nothing more is assumed of the draw: callers must hold
/// for every value in the range.
#[verifier::external_body]
pub(crate) fn random_in_range(lo: i64, hi: i64) -> (r: i64)
    requires
        lo < hi,
    ensures
        lo <= r < hi,
{
    rand::rng().random_range(lo..hi)
}

} // verus!
