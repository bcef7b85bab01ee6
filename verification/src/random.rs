//! Draws from the thread's random number generator.
//!
//! Nothing ties a draw to anything else: callers hold for every value that can come back.

use vstd::prelude::*;

verus! {

/// `fastrand::u32` over the whole range. Any `u32` can come back.
#[verifier::external_body]
pub(crate) fn random_u32() -> (n: u32) {
    fastrand::u32(..)
}

/// `fastrand::u8` over the whole range. Any `u8` can come back.
#[verifier::external_body]
pub(crate) fn random_u8() -> (n: u8) {
    fastrand::u8(..)
}

/// `fastrand::u64` over the range from zero up to `bound`, which is left out. It panics on an
/// empty range, so `bound` must not be zero; the draw lies in the range.
#[verifier::external_body]
pub(crate) fn random_u64_below(bound: u64) -> (n: u64)
    requires
        bound > 0,
    ensures
        n < bound,
{
    fastrand::u64(0..bound)
}

} // verus!
