//! A builder of hashers with a seed of its own, for hash tables whose keys
//! come from outside.
//!
//! The seed is 64 bits wide and the hash is not proved to resist an
//! attacker, so this raises the cost of a flooding attack and does not rule
//! one out.

use crate::rapid_hasher::RapidHasher;
use crate::rapid_hasher_inline::new_state;
use crate::rng::{rapidrng_fast, rng_output, rng_step};
use core::hash::BuildHasher;
use vstd::prelude::*;

verus! {

/// A builder whose hashers all start from the one seed that it was made with:
/// two hashers of one builder agree on every input, and two builders agree
/// only by chance.
#[derive(Clone, Copy, PartialEq, Eq, Structural)]
pub struct RapidRandomState {
    seed: u64,
}

impl View for RapidRandomState {
    type V = u64;

    closed spec fn view(&self) -> u64 {
        self.seed
    }
}

/// `rand::random` of the rand crate at type `u64`: a word drawn from the
/// generator of the calling thread. Nothing is claimed of the word.
#[verifier::external_body]
fn random_word() -> u64 {
    rand::random()
}

impl RapidRandomState {
    /// A builder with a seed drawn at random.
    pub fn new() -> (r: Self)
        ensures
            exists|word: u64| r@ == rng_output(#[trigger] rng_step(word)),
    {
        let mut word: u64 = random_word();
        Self::with_counter(&mut word)
    }

    /// A builder seeded from a counter that the caller keeps: the seed is the
    /// number that [`rapidrng_fast`] gives for the counter's value, and the
    /// counter goes up by one, so that the next builder gets another seed.
    pub fn with_counter(counter: &mut u64) -> (r: Self)
        ensures
            r@ == rng_output(rng_step(*old(counter))),
            *final(counter) == (*old(counter) + 1) % 0x1_0000_0000_0000_0000,
    {
        let mut seed: u64 = *counter;
        *counter = seed.wrapping_add(1);
        Self { seed: rapidrng_fast(&mut seed) }
    }
}

impl Default for RapidRandomState {
    /// A builder with a seed drawn at random.
    fn default() -> (r: Self)
        ensures
            exists|word: u64| r@ == rng_output(#[trigger] rng_step(word)),
    {
        Self::new()
    }
}

impl BuildHasher for RapidRandomState {
    type Hasher = RapidHasher;

    /// A fresh hasher that starts from the builder's seed.
    fn build_hasher(&self) -> (r: RapidHasher)
        ensures
            r@ == new_state(self@),
    {
        RapidHasher::new(self.seed)
    }
}

} // verus!
