//! Trusted access to the process-wide random source.

use rand::Rng;
use vstd::prelude::*;

verus! {

/// Relies on rand::Rng::gen_range on the thread-local generator: it panics
/// only on an empty range and returns a value within the given range.
#[verifier::external_body]
pub(crate) fn random_value_in(lo: u8, hi: u8) -> (r: u8)
    requires
        lo <= hi,
    ensures
        lo <= r <= hi,
{
    rand::thread_rng().gen_range(lo..=hi)
}

/// Relies on rand::Rng::gen_ratio on the thread-local generator: an even
/// coin flip (one chance in two); nothing is promised of the outcome.
#[verifier::external_body]
pub(crate) fn random_edge_state() -> bool {
    rand::thread_rng().gen_ratio(1, 2)
}

} // verus!
