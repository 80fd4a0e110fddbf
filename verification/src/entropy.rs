//! The clock and the random source that fresh request ids are made from.
use vstd::prelude::*;
use std::collections::hash_map::RandomState;

verus! {

/// Nanoseconds since the Unix epoch, by `SystemTime::elapsed` on
/// `UNIX_EPOCH`; `None` when the clock is set before the epoch. Nothing is
/// claimed of the value: it is the time.
#[verifier::external_body]
pub(crate) fn unix_time_nanos() -> (t: Option<u128>) {
    std::time::UNIX_EPOCH.elapsed().ok().map(|elapsed| elapsed.as_nanos())
}

/// A `RandomState` with fresh random keys, by `RandomState::new`. Nothing is
/// claimed of the keys.
#[verifier::external_body]
pub(crate) fn new_random_state() -> (s: RandomState) {
    RandomState::new()
}

/// The hash of `0u8` under the keys of `state`, by `BuildHasher::hash_one`:
/// a number that depends on the randomly chosen keys. Nothing is claimed of
/// it.
#[verifier::external_body]
pub(crate) fn hash_zero(state: &RandomState) -> (h: u64) {
    std::hash::BuildHasher::hash_one(state, 0u8)
}

/// A random number, from a fresh random state.
pub fn random_u64() -> u64 {
    let state = new_random_state();
    hash_zero(&state)
}

} // verus!
