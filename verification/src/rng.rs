//! The seeded pseudo-random source used for sampling jitter and for
//! scene-level parameter choice.
//!
//! The generator itself comes from the rand crate; verified code treats
//! its values as arbitrary and states only what holds of every outcome.

use vstd::prelude::*;
use rand::RngCore;
use rand::rngs::SmallRng;

verus! {

/// rand's small generator, declared so verified code can own it and
/// thread it through the stroke renderer.
#[verifier::external_type_specification]
#[verifier::external_body]
pub struct ExSmallRng(SmallRng);

/// Relies on rand's `RngCore::next_u64` for `SmallRng`
/// (xoshiro256++): advances the generator state and returns the next
/// value; pure integer arithmetic, never panics. Nothing is promised of
/// the value or of the new state.
#[verifier::external_body]
pub(crate) fn rng_next(rng: &mut SmallRng) -> (r: u64) {
    rng.next_u64()
}

} // verus!
