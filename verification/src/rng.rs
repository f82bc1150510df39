use vstd::prelude::*;

verus! {

/// Relies on rand::rng() and rand::Rng::random_range: a sample drawn
/// uniformly from the half-open range `lo..hi`; panics only on an empty
/// range, which the precondition rules out.
#[verifier::external_body]
pub(crate) fn rand_in_range(lo: u32, hi: u32) -> (r: u32)
    requires
        lo < hi,
    ensures
        lo <= r < hi,
{
    rand::Rng::random_range(&mut rand::rng(), lo..hi)
}

} // verus!
