//! The one source of randomness: drawing an integer from a half-open range.

use rand::Rng;
use vstd::prelude::*;

verus! {

/// Relies on rand's `Rng::gen_range` on a `thread_rng`: for a non-empty range
/// `lo..hi` it returns a value drawn from it, so the result lies in
/// `[lo, hi)`; it panics only on an empty range, which the precondition
/// excludes. Nothing more is assumed of which value comes back.
#[verifier::external_body]
pub(crate) fn sample_range(lo: i64, hi: i64) -> (r: i64)
    requires
        lo < hi,
    ensures
        lo <= r < hi,
{
    rand::thread_rng().gen_range(lo..hi)
}

} // verus!
