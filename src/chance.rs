//! Random draws.
use vstd::prelude::*;

verus! {

/// Relies on rand::random_range: a value drawn from `0..bound` by the
/// thread-local generator; it panics on an empty range, which `requires` rules out.
#[verifier::external_body]
pub(crate) fn random_below(bound: u32) -> (r: u32)
    requires
        bound > 0,
    ensures
        r < bound,
{
    rand::random_range(0..bound)
}

} // verus!
