//! Thin trusted boundary around the process-wide random number generator.
//!
//! Every draw the simulation and the world generator make goes through one of
//! these wrappers, so the verified logic only ever sees plain values and is
//! proved correct for every outcome a draw can produce.
use vstd::prelude::*;

verus! {

/// Relies on rand::random::<bool>: a draw from the thread-local generator.
/// Nothing can be promised of the outcome.
#[verifier::external_body]
pub(crate) fn rand_coin() -> bool {
    rand::random()
}

/// Relies on rand::random_range: a uniform draw from `lo..hi`, which lies in
/// the half-open range (the call panics only on an empty range, which the
/// precondition rules out).
#[verifier::external_body]
pub(crate) fn rand_range_u32(lo: u32, hi: u32) -> (r: u32)
    requires
        lo < hi,
    ensures
        lo <= r < hi,
{
    rand::random_range(lo..hi)
}

/// Relies on rand::random_ratio: true with probability `num/den`; the
/// documentation guarantees the outcome at the two extremes, and the call
/// panics only when `den == 0` or `num > den`.
#[verifier::external_body]
pub(crate) fn rand_ratio(num: u32, den: u32) -> (r: bool)
    requires
        0 < den,
        num <= den,
    ensures
        num == 0 ==> !r,
        num == den ==> r,
{
    rand::random_ratio(num, den)
}

} // verus!
