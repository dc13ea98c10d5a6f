//! The library's one source of randomness, kept behind a trusted boundary.

use vstd::prelude::*;

verus! {

/// Relies on `rand::random_range` over the non-empty range `0..100`: it
/// draws from the thread-local generator a value that always lies below 100.
/// Nothing more is assumed of the draw.
#[verifier::external_body]
pub(crate) fn random_percent() -> (r: u32)
    ensures
        r < 100,
{
    rand::random_range(0..100u32)
}

} // verus!
