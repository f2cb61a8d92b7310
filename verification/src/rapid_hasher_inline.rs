//! The streaming hasher: what it holds, how a write changes it, and what it
//! gives back as the digest.
//!
//! One write of a whole input gives the one-shot hash of that input. Several
//! writes give a digest of their own, which depends on where the input was
//! cut: each write evolves the seed by the bytes taken so far and runs the
//! core over its own chunk alone.

use crate::bytes::{ne_bytes, to_ne_bytes, to_ne_bytes_signed};
use crate::rapid_const::{
    core_spec, finish_spec, hash_spec, rapidhash_core, rapidhash_finish, rapidhash_seed, seed_spec,
    RAPID_SEED,
};
use core::hash::Hasher;
use vstd::prelude::*;
use vstd::slice::slice_subrange;

verus! {

/// What a streaming hasher holds: the running seed, the two accumulators and
/// the number of bytes taken so far.
pub struct HasherState {
    pub seed: u64,
    pub a: u64,
    pub b: u64,
    pub size: u64,
}

/// The state of a hasher that has taken nothing yet.
pub open spec fn new_state(seed: u64) -> HasherState {
    HasherState { seed, a: 0, b: 0, size: 0 }
}

/// The state after one write of `bytes`: the count grows by their number
/// (modulo two to the 64), the seed is evolved by the new count, and the core
/// absorbs the chunk.
pub open spec fn write_state(s: HasherState, bytes: Seq<u8>) -> HasherState {
    let size = ((s.size + bytes.len()) % 0x1_0000_0000_0000_0000) as u64;
    let (a, b, seed) = core_spec(s.a, s.b, seed_spec(s.seed, size), bytes);
    HasherState { seed, a, b, size }
}

/// The digest of a state.
pub open spec fn digest(s: HasherState) -> u64 {
    finish_spec(s.a, s.b, s.size)
}

/// A fresh hasher that takes a whole input in one write gives the one-shot
/// hash of that input under the same seed.
pub proof fn lemma_single_write_is_one_shot(seed: u64, data: Seq<u8>)
    requires
        data.len() <= u64::MAX,
    ensures
        digest(write_state(new_state(seed), data)) == hash_spec(data, seed),
{
    assert((0 + data.len()) % 0x1_0000_0000_0000_0000 == data.len());
}

/// A streaming hasher whose methods are all marked for inlining.
///
/// It is a plain value: a copy goes on independently of the hasher it was
/// copied from.
#[derive(Clone, Copy, PartialEq, Eq, Structural)]
pub struct RapidInlineHasher {
    seed: u64,
    a: u64,
    b: u64,
    size: u64,
}

/// A builder of [`RapidInlineHasher`]s that all start from the default seed.
pub type RapidInlineHashBuilder = core::hash::BuildHasherDefault<RapidInlineHasher>;

/// A hash map keyed through [`RapidInlineHasher`].
pub type RapidInlineHashMap<K, V> = std::collections::HashMap<K, V, RapidInlineHashBuilder>;

/// A hash set keyed through [`RapidInlineHasher`].
pub type RapidInlineHashSet<K> = std::collections::HashSet<K, RapidInlineHashBuilder>;

impl View for RapidInlineHasher {
    type V = HasherState;

    closed spec fn view(&self) -> HasherState {
        HasherState { seed: self.seed, a: self.a, b: self.b, size: self.size }
    }
}

impl RapidInlineHasher {
    /// The seed of [`RapidInlineHasher::default_const`].
    pub const DEFAULT_SEED: u64 = RAPID_SEED;

    /// A hasher that starts from `seed`.
    #[inline(always)]
    #[must_use]
    pub fn new(seed: u64) -> (r: Self)
        ensures
            r@ == new_state(seed),
    {
        Self { seed, a: 0, b: 0, size: 0 }
    }

    /// A hasher that starts from the default seed.
    #[inline(always)]
    #[must_use]
    pub fn default_const() -> (r: Self)
        ensures
            r@ == new_state(RAPID_SEED),
    {
        Self::new(RAPID_SEED)
    }

    /// The hasher after one write of `bytes`; `self` is left as it was.
    #[inline(always)]
    #[must_use]
    pub fn write_const(&self, bytes: &[u8]) -> (r: Self)
        ensures
            r@ == write_state(self@, bytes@),
    {
        let size: u64 = self.size.wrapping_add(bytes.len() as u64);
        assert(size == (self.size + bytes@.len()) % 0x1_0000_0000_0000_0000);
        let seed: u64 = rapidhash_seed(self.seed, size);
        let (a, b, seed) = rapidhash_core(self.a, self.b, seed, bytes);
        Self { seed, a, b, size }
    }

    /// The digest of all that was written.
    #[inline(always)]
    #[must_use]
    pub fn finish_const(&self) -> (r: u64)
        ensures
            r == digest(self@),
    {
        rapidhash_finish(self.a, self.b, self.size)
    }

    /// Writes the `width` low bytes of `value` in the byte order of the host.
    #[inline(always)]
    fn write_native(&mut self, value: u128, width: usize)
        requires
            width <= 16,
        ensures
            final(self)@ == write_state(old(self)@, ne_bytes(value as int, width as nat)),
    {
        let buf: [u8; 16] = to_ne_bytes(value, width);
        *self = self.write_const(slice_subrange(buf.as_slice(), 0, width));
    }

    /// Writes the `width` low bytes of the two's complement of `value` in the
    /// byte order of the host.
    #[inline(always)]
    fn write_native_signed(&mut self, value: i128, width: usize)
        requires
            width <= 16,
        ensures
            final(self)@ == write_state(old(self)@, ne_bytes(value as int, width as nat)),
    {
        let buf: [u8; 16] = to_ne_bytes_signed(value, width);
        *self = self.write_const(slice_subrange(buf.as_slice(), 0, width));
    }
}

impl Default for RapidInlineHasher {
    /// A hasher that starts from the default seed.
    #[inline(always)]
    fn default() -> (r: Self)
        ensures
            r@ == new_state(RAPID_SEED),
    {
        Self::new(RAPID_SEED)
    }
}

/// Each integer write is one write of the integer's bytes in the byte order
/// of the host; a signed integer is written in two's complement.
impl Hasher for RapidInlineHasher {
    #[inline(always)]
    fn finish(&self) -> (r: u64)
        ensures
            r == digest(self@),
    {
        self.finish_const()
    }

    #[inline(always)]
    fn write(&mut self, bytes: &[u8])
        ensures
            final(self)@ == write_state(old(self)@, bytes@),
    {
        *self = self.write_const(bytes);
    }

    #[inline(always)]
    fn write_u8(&mut self, i: u8)
        ensures
            final(self)@ == write_state(old(self)@, ne_bytes(i as int, 1)),
    {
        self.write_native(i as u128, 1);
    }

    #[inline(always)]
    fn write_u16(&mut self, i: u16)
        ensures
            final(self)@ == write_state(old(self)@, ne_bytes(i as int, 2)),
    {
        self.write_native(i as u128, 2);
    }

    #[inline(always)]
    fn write_u32(&mut self, i: u32)
        ensures
            final(self)@ == write_state(old(self)@, ne_bytes(i as int, 4)),
    {
        self.write_native(i as u128, 4);
    }

    #[inline(always)]
    fn write_u64(&mut self, i: u64)
        ensures
            final(self)@ == write_state(old(self)@, ne_bytes(i as int, 8)),
    {
        self.write_native(i as u128, 8);
    }

    #[inline(always)]
    fn write_u128(&mut self, i: u128)
        ensures
            final(self)@ == write_state(old(self)@, ne_bytes(i as int, 16)),
    {
        self.write_native(i, 16);
    }

    #[inline(always)]
    fn write_usize(&mut self, i: usize)
        ensures
            final(self)@ == write_state(old(self)@, ne_bytes(i as int, (usize::BITS / 8) as nat)),
    {
        self.write_native(i as u128, (usize::BITS / 8) as usize);
    }

    #[inline(always)]
    fn write_i8(&mut self, i: i8)
        ensures
            final(self)@ == write_state(old(self)@, ne_bytes(i as int, 1)),
    {
        self.write_native_signed(i as i128, 1);
    }

    #[inline(always)]
    fn write_i16(&mut self, i: i16)
        ensures
            final(self)@ == write_state(old(self)@, ne_bytes(i as int, 2)),
    {
        self.write_native_signed(i as i128, 2);
    }

    #[inline(always)]
    fn write_i32(&mut self, i: i32)
        ensures
            final(self)@ == write_state(old(self)@, ne_bytes(i as int, 4)),
    {
        self.write_native_signed(i as i128, 4);
    }

    #[inline(always)]
    fn write_i64(&mut self, i: i64)
        ensures
            final(self)@ == write_state(old(self)@, ne_bytes(i as int, 8)),
    {
        self.write_native_signed(i as i128, 8);
    }

    #[inline(always)]
    fn write_i128(&mut self, i: i128)
        ensures
            final(self)@ == write_state(old(self)@, ne_bytes(i as int, 16)),
    {
        self.write_native_signed(i, 16);
    }

    #[inline(always)]
    fn write_isize(&mut self, i: isize)
        ensures
            final(self)@ == write_state(
                old(self)@,
                ne_bytes(i as int, (usize::BITS / 8) as nat),
            ),
    {
        self.write_native_signed(i as i128, (usize::BITS / 8) as usize);
    }
}

} // verus!
