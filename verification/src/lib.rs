//! A fast, non-cryptographic 64-bit hash of byte strings, with a streaming
//! hasher, a hybrid hasher for short keys, two small random number generators
//! and a randomly seeded builder of hashers, all on one mixing step.
//!
//! Every executable function carries a contract over the mathematical model
//! that [`rapid_const`] states, and the verifier checks each body against it.
//! What is taken on trust is named where it stands: the host's byte order in
//! [`bytes`], the clock in [`rng`] and the random draw in [`random_state`].

pub mod bytes;
pub mod random_state;
pub mod rapid;
pub mod rapid_const;
pub mod rapid_hasher;
pub mod rapid_hasher_inline;
pub mod rapid_hybrid;
pub mod rng;
pub mod rng_quality;

pub use crate::random_state::RapidRandomState;
pub use crate::rapid_const::{
    rapid_mix, rapid_mum, rapidhash, rapidhash_inline, rapidhash_seeded, RAPID_SEED,
};
pub use crate::rapid_hasher::{RapidHashBuilder, RapidHashMap, RapidHashSet, RapidHasher};
pub use crate::rapid_hasher_inline::{
    RapidInlineHashBuilder, RapidInlineHashMap, RapidInlineHashSet, RapidInlineHasher,
};
pub use crate::rapid_hybrid::{
    fxrapidhash, FxRapidHashBuilder, FxRapidHashMap, FxRapidHashSet, FxRapidHasher,
};
pub use crate::rng::{rapidrng_fast, rapidrng_time, rapidrng_time_at, RapidRng};
pub use crate::rng_quality::{rapidrng_quality, RapidRngQuality};
