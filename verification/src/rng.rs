//! The single trusted source of randomness.

use vstd::prelude::*;

verus! {

/// Relies on rand::random_range: a uniform sample from a nonempty
/// half-open range lies within that range. Nothing else is assumed of
/// the value: every caller is verified for every outcome.
#[verifier::external_body]
pub(crate) fn random_index_in(lo: usize, hi: usize) -> (r: usize)
    requires
        lo < hi,
    ensures
        lo <= r < hi,
{
    rand::random_range(lo..hi)
}

} // verus!
