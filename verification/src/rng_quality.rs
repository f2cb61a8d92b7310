//! A generator of three words of state, for numbers of better quality at a
//! higher price: one word counts on as in [`crate::rng`], and the other two
//! carry the product of the step before into every step.
//!
//! It is not fit for cryptography either.

use crate::bytes::{le_bytes, lemma_le_bytes_len, lemma_le_bytes_read_back, to_le_bytes};
use crate::rapid::lemma_front_reads;
use crate::rapid_const::{mum_spec, rapid_mum, read_u64, u64_at, RAPID_SECRET};
use crate::rng::{lemma_rng_full_cycle, put_word, rng_state_after, rng_step};
use vstd::prelude::*;

verus! {

/// The state that follows `state`: the first word steps on as the state of
/// the one-word generator does; the second and third words each take in
/// their own secret and the new first word by exclusive or, and are then
/// replaced by the low and the high half of their full product.
pub open spec fn quality_step(state: (u64, u64, u64)) -> (u64, u64, u64) {
    let first = rng_step(state.0);
    let (lo, hi) = mum_spec(
        state.1 ^ RAPID_SECRET[1] ^ first,
        state.2 ^ RAPID_SECRET[2] ^ first,
    );
    (first, lo, hi)
}

/// The number that the generator gives out in state `state`: its second and
/// third words folded by exclusive or.
pub open spec fn quality_output(state: (u64, u64, u64)) -> u64 {
    state.1 ^ state.2
}

/// The state after `steps` steps from `state`.
pub open spec fn quality_state_after(state: (u64, u64, u64), steps: nat) -> (u64, u64, u64)
    decreases steps,
{
    if steps == 0 {
        state
    } else {
        quality_step(quality_state_after(state, (steps - 1) as nat))
    }
}

/// The first word of the state walks the cycle of the one-word generator, so
/// the state is back where it began at no step that is not a multiple of two
/// to the 64.
pub proof fn lemma_quality_long_cycle(state: (u64, u64, u64), steps: nat)
    ensures
        quality_state_after(state, steps).0 == rng_state_after(state.0, steps),
        quality_state_after(state, steps) == state ==> steps % 0x1_0000_0000_0000_0000 == 0,
    decreases steps,
{
    if steps > 0 {
        lemma_quality_long_cycle(state, (steps - 1) as nat);
    }
    lemma_rng_full_cycle(state.0, steps);
}

/// The bytes that a generator in state `state` fills a buffer of `len` bytes
/// with: every eight bytes hold one number, least significant byte first, and
/// a shorter rest holds the low bytes of one more.
pub open spec fn quality_bytes(state: (u64, u64, u64), len: nat) -> Seq<u8> {
    Seq::new(
        len,
        |i: int|
            le_bytes(quality_output(quality_state_after(state, (i / 8 + 1) as nat)) as int, 8)[i
                % 8],
    )
}

/// The three words of `state` as 24 bytes, each word least significant byte
/// first.
pub open spec fn quality_state_bytes(state: (u64, u64, u64)) -> Seq<u8> {
    le_bytes(state.0 as int, 8) + le_bytes(state.1 as int, 8) + le_bytes(state.2 as int, 8)
}

/// The three words that 24 bytes stand for, each read least significant byte
/// first.
pub open spec fn quality_state_of(seed: Seq<u8>) -> (u64, u64, u64) {
    (u64_at(seed, 0), u64_at(seed, 8), u64_at(seed, 16))
}

/// The bytes of a state stand for that state: `from_seed` undoes `state`.
pub proof fn lemma_quality_state_round_trip(state: (u64, u64, u64))
    ensures
        quality_state_bytes(state).len() == 24,
        quality_state_of(quality_state_bytes(state)) == state,
{
    let bytes = quality_state_bytes(state);
    lemma_le_bytes_len(state.0 as int, 8);
    lemma_le_bytes_len(state.1 as int, 8);
    lemma_le_bytes_len(state.2 as int, 8);
    assert(bytes.subrange(0, 8) =~= le_bytes(state.0 as int, 8));
    assert(bytes.subrange(8, 24).subrange(0, 8) =~= le_bytes(state.1 as int, 8));
    assert(bytes.subrange(16, 24).subrange(0, 8) =~= le_bytes(state.2 as int, 8));
    lemma_le_bytes_read_back(state.0, bytes);
    lemma_le_bytes_read_back(state.1, bytes.subrange(8, 24));
    lemma_le_bytes_read_back(state.2, bytes.subrange(16, 24));
    lemma_front_reads(bytes, 0, bytes.subrange(0, 24));
    assert(bytes.subrange(0, 24) =~= bytes);
    assert(bytes.subrange(8, 24) == bytes.subrange(0, 24).subrange(8, 24));
    assert(bytes.subrange(16, 24) == bytes.subrange(0, 24).subrange(16, 24));
}

/// Steps the three words of `state` once and returns the number for the new
/// state.
#[inline]
pub fn rapidrng_quality(state: &mut [u64; 3]) -> (r: u64)
    ensures
        (final(state)@[0], final(state)@[1], final(state)@[2]) == quality_step(
            (old(state)@[0], old(state)@[1], old(state)@[2]),
        ),
        r == quality_output((final(state)@[0], final(state)@[1], final(state)@[2])),
{
    let first: u64 = state[0].wrapping_add(RAPID_SECRET[0]);
    assert(first == (state@[0] + RAPID_SECRET[0]) % 0x1_0000_0000_0000_0000);
    let (lo, hi) = rapid_mum(
        state[1] ^ RAPID_SECRET[1] ^ first,
        state[2] ^ RAPID_SECRET[2] ^ first,
    );
    state[0] = first;
    state[1] = lo;
    state[2] = hi;
    lo ^ hi
}

/// A random number generator of three words of state.
///
/// It is a plain value: a copy gives the numbers that the value it was copied
/// from gives.
#[derive(Clone, Copy, Debug, PartialEq, Eq, PartialOrd, Ord, Hash, Structural)]
pub struct RapidRngQuality {
    first: u64,
    second: u64,
    third: u64,
}

impl View for RapidRngQuality {
    type V = (u64, u64, u64);

    closed spec fn view(&self) -> (u64, u64, u64) {
        (self.first, self.second, self.third)
    }
}

impl RapidRngQuality {
    /// A generator whose three words all start at `seed`.
    #[inline]
    pub fn new(seed: u64) -> (r: Self)
        ensures
            r@ == (seed, seed, seed),
    {
        Self { first: seed, second: seed, third: seed }
    }

    /// The state as 24 bytes: the three words in turn, each least significant
    /// byte first.
    pub fn state(&self) -> (r: [u8; 24])
        ensures
            r@ == quality_state_bytes(self@),
    {
        let mut bytes: [u8; 24] = [0u8; 24];
        put_word(&mut bytes, 0, self.first, 8);
        put_word(&mut bytes, 8, self.second, 8);
        put_word(&mut bytes, 16, self.third, 8);
        proof {
            lemma_le_bytes_len(self.first as int, 8);
            lemma_le_bytes_len(self.second as int, 8);
            lemma_le_bytes_len(self.third as int, 8);
            assert(bytes@ =~= quality_state_bytes(self@));
        }
        bytes
    }

    /// Steps the generator and returns the number for its new state.
    #[inline]
    pub fn next(&mut self) -> (r: u64)
        ensures
            final(self)@ == quality_step(old(self)@),
            r == quality_output(final(self)@),
    {
        let mut words: [u64; 3] = [self.first, self.second, self.third];
        let out: u64 = rapidrng_quality(&mut words);
        self.first = words[0];
        self.second = words[1];
        self.third = words[2];
        out
    }

    /// Steps the generator and returns the low half of the number for its new
    /// state.
    #[inline]
    pub fn next_u32(&mut self) -> (r: u32)
        ensures
            final(self)@ == quality_step(old(self)@),
            r == quality_output(final(self)@) % 0x1_0000_0000,
    {
        let word: u64 = self.next();
        assert(word as u32 == word % 0x1_0000_0000) by (bit_vector);
        #[verifier::truncate]
        (word as u32)
    }

    /// Steps the generator and returns the number for its new state.
    #[inline]
    pub fn next_u64(&mut self) -> (r: u64)
        ensures
            final(self)@ == quality_step(old(self)@),
            r == quality_output(final(self)@),
    {
        self.next()
    }

    /// Fills `dest` with random bytes: one step of the generator for every
    /// eight bytes, and one more for a shorter rest.
    pub fn fill_bytes(&mut self, dest: &mut [u8])
        ensures
            final(dest)@ == quality_bytes(old(self)@, old(dest)@.len()),
            final(self)@ == quality_state_after(
                old(self)@,
                ((old(dest)@.len() + 7) / 8) as nat,
            ),
    {
        let len: usize = dest.len();
        let mut at: usize = 0;
        let ghost start = self@;
        let ghost mut steps: nat = 0;
        while len - at >= 8
            invariant
                dest@.len() == len,
                at <= len,
                at == 8 * steps,
                self@ == quality_state_after(start, steps),
                forall|i: int| 0 <= i < at ==> dest@[i] == quality_bytes(start, len as nat)[i],
            decreases len - at,
        {
            let word: u64 = self.next();
            put_word(dest, at, word, 8);
            proof {
                steps = steps + 1;
            }
            at = at + 8;
        }
        if at < len {
            let word: u64 = self.next();
            put_word(dest, at, word, len - at);
            proof {
                steps = steps + 1;
            }
        }
        assert(dest@ =~= quality_bytes(start, len as nat));
    }

    /// A generator whose three words are the three eight-byte words of
    /// `seed`, each read least significant byte first.
    #[inline]
    pub fn from_seed(seed: [u8; 24]) -> (r: Self)
        ensures
            r@ == quality_state_of(seed@),
    {
        let bytes: &[u8] = seed.as_slice();
        Self { first: read_u64(bytes, 0), second: read_u64(bytes, 8), third: read_u64(bytes, 16) }
    }

    /// A generator whose three words all start at `state`.
    #[inline]
    pub fn seed_from_u64(state: u64) -> (r: Self)
        ensures
            r@ == (state, state, state),
    {
        Self::new(state)
    }
}

} // verus!
