//! Random numbers from the mixing step: a one-word generator that walks the
//! 64-bit space in a single cycle, and a reseeding from the clock.
//!
//! Neither is fit for cryptography.

use crate::bytes::{le_bytes, lemma_le_bytes_len, to_le_bytes};
use crate::rapid_const::{mix_spec, rapid_mix, read_u64, u64_at, RAPID_SECRET, RAPID_SEED};
use core::time::Duration;
use vstd::prelude::*;

verus! {

/// The state that follows `seed`: the first secret is added modulo two to
/// the 64.
pub open spec fn rng_step(seed: u64) -> u64 {
    ((seed + RAPID_SECRET[0]) % 0x1_0000_0000_0000_0000) as u64
}

/// The number that the generator gives out in state `state`.
pub open spec fn rng_output(state: u64) -> u64 {
    mix_spec(state, state ^ RAPID_SECRET[1])
}

/// The state after `steps` steps from `seed`.
pub open spec fn rng_state_after(seed: u64, steps: nat) -> u64
    decreases steps,
{
    if steps == 0 {
        seed
    } else {
        rng_step(rng_state_after(seed, (steps - 1) as nat))
    }
}

/// The bytes that a generator in state `seed` fills a buffer of `len` bytes
/// with: every eight bytes hold one number, least significant byte first, and
/// a shorter rest holds the low bytes of one more.
pub open spec fn rng_bytes(seed: u64, len: nat) -> Seq<u8> {
    Seq::new(
        len,
        |i: int| le_bytes(rng_output(rng_state_after(seed, (i / 8 + 1) as nat)) as int, 8)[i % 8],
    )
}

/// After `steps` steps the state has moved on by `steps` times the first
/// secret, modulo two to the 64.
pub proof fn lemma_rng_state_after(seed: u64, steps: nat)
    ensures
        rng_state_after(seed, steps) == (seed + steps * RAPID_SECRET[0])
            % 0x1_0000_0000_0000_0000,
    decreases steps,
{
    if steps > 0 {
        lemma_rng_state_after(seed, (steps - 1) as nat);
        let range: int = 0x1_0000_0000_0000_0000;
        let secret: int = 0x2d358dccaa6c78a5;
        assert(RAPID_SECRET[0] == secret);
        let before: int = seed + (steps - 1) * secret;
        assert(rng_state_after(seed, (steps - 1) as nat) == before % range);
        assert(rng_state_after(seed, steps) == (before % range + secret) % range);
        assert(before == range * (before / range) + before % range);
        vstd::arithmetic::div_mod::lemma_mod_multiples_vanish(
            before / range,
            before % range + secret,
            range,
        );
        assert(seed + steps * secret == before + secret);
    }
}

/// The states of the generator form a single cycle through all the words of
/// 64 bits: the state is back where it began after a multiple of two to the
/// 64 steps, and at no step before.
pub proof fn lemma_rng_full_cycle(seed: u64, steps: nat)
    ensures
        rng_state_after(seed, steps) == seed <==> steps % 0x1_0000_0000_0000_0000 == 0,
{
    lemma_rng_state_after(seed, steps);
    let range: int = 0x1_0000_0000_0000_0000;
    let secret: int = 0x2d358dccaa6c78a5;
    assert(RAPID_SECRET[0] == secret);
    let moved: int = steps * secret;
    // The first secret is odd, so it has an inverse modulo two to the 64.
    let inverse: int = 0x32e25c49d2beaf2d;
    let carry: int = 0x8fc6f45706a3aef;
    assert(secret * inverse == carry * range + 1);
    let turns: int = moved / range;
    let rest: int = moved % range;
    assert(moved == range * turns + rest);
    assert((seed + moved) % range == (seed + rest) % range) by {
        vstd::arithmetic::div_mod::lemma_mod_multiples_vanish(turns, seed + rest, range);
    }
    if rest == 0 {
        // steps == range * (inverse * turns - carry * steps)
        let factor: int = inverse * turns - carry * steps;
        assert(steps == range * factor);
        vstd::arithmetic::div_mod::lemma_mod_multiples_basic(factor, range);
        assert(steps % 0x1_0000_0000_0000_0000 == 0);
    } else {
        assert((seed + rest) % range != seed);
        if steps % 0x1_0000_0000_0000_0000 == 0 {
            let times: int = steps as int / range;
            assert(steps == range * times);
            assert(moved == range * (times * secret));
            vstd::arithmetic::div_mod::lemma_mod_multiples_basic(times * secret, range);
        }
    }
}

/// The clock as one word: the low half of the seconds above the nanoseconds.
pub open spec fn time_word(secs: u64, nanos: u32) -> u64 {
    ((secs % 0x1_0000_0000) * 0x1_0000_0000 + nanos) as u64
}

/// The seed that a reseeding from the clock leaves: the clock word and the
/// old seed go through two rounds of mixing.
pub open spec fn time_seed(seed: u64, secs: u64, nanos: u32) -> u64 {
    mix_spec(
        mix_spec(time_word(secs, nanos) ^ RAPID_SECRET[0], seed ^ RAPID_SECRET[1])
            ^ RAPID_SECRET[0],
        RAPID_SECRET[2],
    )
}

/// Steps `seed` once and returns the number for the new state.
///
/// The sequence is a single cycle through the 64-bit space: `seed` is no more
/// than a position in it.
#[inline]
pub fn rapidrng_fast(seed: &mut u64) -> (r: u64)
    ensures
        *final(seed) == rng_step(*old(seed)),
        r == rng_output(*final(seed)),
{
    *seed = seed.wrapping_add(RAPID_SECRET[0]);
    assert(*seed == (*old(seed) + RAPID_SECRET[0]) % 0x1_0000_0000_0000_0000);
    rapid_mix(*seed, *seed ^ RAPID_SECRET[1])
}

/// Reseeds from a clock reading of `secs` seconds and `nanos` nanoseconds and
/// returns the number for the new seed.
#[inline]
pub fn rapidrng_time_at(seed: &mut u64, secs: u64, nanos: u32) -> (r: u64)
    ensures
        *final(seed) == time_seed(*old(seed), secs, nanos),
        r == rng_output(*final(seed)),
{
    let low: u64 = nanos as u64;
    assert((secs << 32) | low == (secs % 0x1_0000_0000) * 0x1_0000_0000 + low) by (bit_vector)
        requires
            low < 0x1_0000_0000,
    ;
    let mut teed: u64 = (secs << 32) | low;
    teed = rapid_mix(teed ^ RAPID_SECRET[0], *seed ^ RAPID_SECRET[1]);
    *seed = rapid_mix(teed ^ RAPID_SECRET[0], RAPID_SECRET[2]);
    rapid_mix(*seed, *seed ^ RAPID_SECRET[1])
}

/// `SystemTime::elapsed` of std, called on `UNIX_EPOCH`: the time that has
/// passed since the epoch, or `None` where the clock reads before it. Nothing
/// is claimed of the reading. Believed, not proved.
#[verifier::external_body]
fn since_epoch() -> Option<Duration> {
    match std::time::UNIX_EPOCH.elapsed() {
        Ok(passed) => Some(passed),
        Err(_) => None,
    }
}

/// `Duration::as_secs` of std: the whole seconds of a duration. Nothing is
/// claimed of their number.
pub assume_specification[ Duration::as_secs ](duration: &Duration) -> u64;

/// `Duration::subsec_nanos` of std: the part of a duration below one second,
/// in nanoseconds, which its documentation puts under one billion.
pub assume_specification[ Duration::subsec_nanos ](duration: &Duration) -> (r: u32)
    ensures
        r < 1_000_000_000,
;

/// Reseeds from the system clock and returns the number for the new seed.
///
/// The clock is read as seconds and nanoseconds since the epoch; a clock that
/// reads before the epoch counts as the epoch itself. Reading the clock costs
/// a system call, so this is far slower than [`rapidrng_fast`], which it can
/// seed.
#[inline]
pub fn rapidrng_time(seed: &mut u64) -> (r: u64)
    ensures
        exists|secs: u64, nanos: u32|
            nanos < 1_000_000_000 && *final(seed) == #[trigger] time_seed(*old(seed), secs, nanos),
        r == rng_output(*final(seed)),
{
    match since_epoch() {
        Some(passed) => rapidrng_time_at(seed, passed.as_secs(), passed.subsec_nanos()),
        None => rapidrng_time_at(seed, 0, 0),
    }
}

/// A random number generator of one word of state.
///
/// It is a plain value: a copy gives the numbers that the value it was copied
/// from gives.
#[derive(Clone, Copy, Debug, PartialEq, Eq, PartialOrd, Ord, Hash, Structural)]
pub struct RapidRng {
    seed: u64,
}

impl View for RapidRng {
    type V = u64;

    closed spec fn view(&self) -> u64 {
        self.seed
    }
}

/// Copies the first `count` bytes of `word`, least significant first, to
/// `dest` from `at` on.
pub(crate) fn put_word(dest: &mut [u8], at: usize, word: u64, count: usize)
    requires
        count <= 8,
        at + count <= old(dest)@.len(),
    ensures
        final(dest)@.len() == old(dest)@.len(),
        forall|i: int|
            0 <= i < final(dest)@.len() ==> final(dest)@[i] == if at <= i < at + count {
                le_bytes(word as int, 8)[i - at]
            } else {
                old(dest)@[i]
            },
{
    let len: usize = dest.len();
    let bytes: [u8; 16] = to_le_bytes(word as u128, 8);
    proof {
        lemma_le_bytes_len(word as int, 8);
        assert(forall|j: int| 0 <= j < 8 ==> bytes@[j] == bytes@.subrange(0, 8)[j]);
    }
    let mut j: usize = 0;
    while j < count
        invariant
            j <= count <= 8,
            at + count <= len,
            dest@.len() == len,
            len == old(dest)@.len(),
            le_bytes(word as int, 8).len() == 8,
            forall|j: int| 0 <= j < 8 ==> bytes@[j] == le_bytes(word as int, 8)[j],
            forall|i: int|
                0 <= i < dest@.len() ==> dest@[i] == if at <= i < at + j {
                    le_bytes(word as int, 8)[i - at]
                } else {
                    old(dest)@[i]
                },
        decreases count - j,
    {
        dest[at + j] = bytes[j];
        j = j + 1;
    }
}

impl RapidRng {
    /// A generator that starts in state `seed`.
    #[inline]
    pub fn new(seed: u64) -> (r: Self)
        ensures
            r@ == seed,
    {
        Self { seed }
    }

    /// The state as eight bytes, least significant first.
    #[inline]
    pub fn state(&self) -> (r: [u8; 8])
        ensures
            r@ == le_bytes(self@ as int, 8),
    {
        let bytes: [u8; 16] = to_le_bytes(self.seed as u128, 8);
        let state: [u8; 8] = [
            bytes[0],
            bytes[1],
            bytes[2],
            bytes[3],
            bytes[4],
            bytes[5],
            bytes[6],
            bytes[7],
        ];
        assert(state@ =~= bytes@.subrange(0, 8));
        state
    }

    /// Steps the generator and returns the number for its new state.
    #[inline]
    pub fn next(&mut self) -> (r: u64)
        ensures
            final(self)@ == rng_step(old(self)@),
            r == rng_output(final(self)@),
    {
        rapidrng_fast(&mut self.seed)
    }

    /// Steps the generator and returns the low half of the number for its new
    /// state.
    #[inline]
    pub fn next_u32(&mut self) -> (r: u32)
        ensures
            final(self)@ == rng_step(old(self)@),
            r == rng_output(final(self)@) % 0x1_0000_0000,
    {
        let word: u64 = self.next();
        assert(word as u32 == word % 0x1_0000_0000) by (bit_vector);
        #[verifier::truncate]
        (word as u32)
    }

    /// Steps the generator and returns the number for its new state.
    #[inline]
    pub fn next_u64(&mut self) -> (r: u64)
        ensures
            final(self)@ == rng_step(old(self)@),
            r == rng_output(final(self)@),
    {
        self.next()
    }

    /// Fills `dest` with random bytes: one step of the generator for every
    /// eight bytes, and one more for a shorter rest.
    pub fn fill_bytes(&mut self, dest: &mut [u8])
        ensures
            final(dest)@ == rng_bytes(old(self)@, old(dest)@.len()),
            final(self)@ == rng_state_after(old(self)@, ((old(dest)@.len() + 7) / 8) as nat),
    {
        let len: usize = dest.len();
        let mut at: usize = 0;
        let ghost start = self@;
        let ghost mut steps: nat = 0;
        while len - at >= 8
            invariant
                dest@.len() == len,
                at <= len,
                at == 8 * steps,
                self@ == rng_state_after(start, steps),
                forall|i: int| 0 <= i < at ==> dest@[i] == rng_bytes(start, len as nat)[i],
            decreases len - at,
        {
            let word: u64 = self.next();
            put_word(dest, at, word, 8);
            proof {
                steps = steps + 1;
            }
            at = at + 8;
        }
        if at < len {
            let word: u64 = self.next();
            put_word(dest, at, word, len - at);
            proof {
                steps = steps + 1;
            }
        }
        assert(dest@ =~= rng_bytes(start, len as nat));
    }

    /// A generator whose state is the first eight bytes of `seed`, read least
    /// significant byte first; the other sixteen are not used.
    #[inline]
    pub fn from_seed(seed: [u8; 24]) -> (r: Self)
        ensures
            r@ == u64_at(seed@, 0),
    {
        Self { seed: read_u64(seed.as_slice(), 0) }
    }

    /// A generator that starts in state `state`.
    #[inline]
    pub fn seed_from_u64(state: u64) -> (r: Self)
        ensures
            r@ == state,
    {
        Self::new(state)
    }
}

impl Default for RapidRng {
    /// A generator seeded from the system clock: its state is the number
    /// that [`rapidrng_time`] gives for the default seed.
    #[inline]
    fn default() -> (r: Self)
        ensures
            exists|secs: u64, nanos: u32|
                nanos < 1_000_000_000 && r@ == rng_output(
                    #[trigger] time_seed(RAPID_SEED, secs, nanos),
                ),
    {
        let mut seed: u64 = RAPID_SEED;
        Self { seed: rapidrng_time(&mut seed) }
    }
}

} // verus!
