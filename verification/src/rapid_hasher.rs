//! The streaming hasher for everyday use: the same state and the same digests
//! as [`RapidInlineHasher`], without the forced inlining.

use crate::bytes::ne_bytes;
use crate::rapid_const::RAPID_SEED;
use crate::rapid_hasher_inline::{digest, new_state, write_state, HasherState, RapidInlineHasher};
use core::hash::Hasher;
use vstd::prelude::*;

verus! {

/// A streaming hasher. One write of a whole input gives the one-shot hash of
/// that input; see [`crate::rapid_hasher_inline`] for what several writes give.
///
/// It is a plain value: a copy goes on independently of the hasher it was
/// copied from.
#[derive(Clone, Copy, PartialEq, Eq, Structural)]
pub struct RapidHasher(RapidInlineHasher);

/// A builder of [`RapidHasher`]s that all start from the default seed.
pub type RapidHashBuilder = core::hash::BuildHasherDefault<RapidHasher>;

/// A hash map keyed through [`RapidHasher`].
pub type RapidHashMap<K, V> = std::collections::HashMap<K, V, RapidHashBuilder>;

/// A hash set keyed through [`RapidHasher`].
pub type RapidHashSet<K> = std::collections::HashSet<K, RapidHashBuilder>;

impl View for RapidHasher {
    type V = HasherState;

    closed spec fn view(&self) -> HasherState {
        self.0@
    }
}

impl RapidHasher {
    /// The seed of [`RapidHasher::default_const`].
    pub const DEFAULT_SEED: u64 = RAPID_SEED;

    /// A hasher that starts from `seed`.
    #[inline]
    #[must_use]
    pub fn new(seed: u64) -> (r: Self)
        ensures
            r@ == new_state(seed),
    {
        Self(RapidInlineHasher::new(seed))
    }

    /// A hasher that starts from the default seed.
    #[inline]
    #[must_use]
    pub fn default_const() -> (r: Self)
        ensures
            r@ == new_state(RAPID_SEED),
    {
        Self::new(RAPID_SEED)
    }

    /// The hasher after one write of `bytes`; `self` is left as it was.
    #[inline]
    #[must_use]
    pub fn write_const(&self, bytes: &[u8]) -> (r: Self)
        ensures
            r@ == write_state(self@, bytes@),
    {
        Self(self.0.write_const(bytes))
    }

    /// The digest of all that was written.
    #[inline]
    #[must_use]
    pub fn finish_const(&self) -> (r: u64)
        ensures
            r == digest(self@),
    {
        self.0.finish_const()
    }

    /// Writes `bytes`, as [`Hasher::write`] does, with the call always inlined.
    #[inline(always)]
    pub fn write_always_inline(&mut self, bytes: &[u8])
        ensures
            final(self)@ == write_state(old(self)@, bytes@),
    {
        self.0 = self.0.write_const(bytes);
    }
}

impl Default for RapidHasher {
    /// A hasher that starts from the default seed.
    #[inline]
    fn default() -> (r: Self)
        ensures
            r@ == new_state(RAPID_SEED),
    {
        Self::new(RAPID_SEED)
    }
}

/// Each integer write is one write of the integer's bytes in the byte order
/// of the host; a signed integer is written in two's complement.
impl Hasher for RapidHasher {
    #[inline]
    fn finish(&self) -> (r: u64)
        ensures
            r == digest(self@),
    {
        self.0.finish_const()
    }

    #[inline]
    fn write(&mut self, bytes: &[u8])
        ensures
            final(self)@ == write_state(old(self)@, bytes@),
    {
        self.0.write(bytes)
    }

    #[inline]
    fn write_u8(&mut self, i: u8)
        ensures
            final(self)@ == write_state(old(self)@, ne_bytes(i as int, 1)),
    {
        self.0.write_u8(i)
    }

    #[inline]
    fn write_u16(&mut self, i: u16)
        ensures
            final(self)@ == write_state(old(self)@, ne_bytes(i as int, 2)),
    {
        self.0.write_u16(i)
    }

    #[inline]
    fn write_u32(&mut self, i: u32)
        ensures
            final(self)@ == write_state(old(self)@, ne_bytes(i as int, 4)),
    {
        self.0.write_u32(i)
    }

    #[inline]
    fn write_u64(&mut self, i: u64)
        ensures
            final(self)@ == write_state(old(self)@, ne_bytes(i as int, 8)),
    {
        self.0.write_u64(i)
    }

    #[inline]
    fn write_u128(&mut self, i: u128)
        ensures
            final(self)@ == write_state(old(self)@, ne_bytes(i as int, 16)),
    {
        self.0.write_u128(i)
    }

    #[inline]
    fn write_usize(&mut self, i: usize)
        ensures
            final(self)@ == write_state(old(self)@, ne_bytes(i as int, (usize::BITS / 8) as nat)),
    {
        self.0.write_usize(i)
    }

    #[inline]
    fn write_i8(&mut self, i: i8)
        ensures
            final(self)@ == write_state(old(self)@, ne_bytes(i as int, 1)),
    {
        self.0.write_i8(i)
    }

    #[inline]
    fn write_i16(&mut self, i: i16)
        ensures
            final(self)@ == write_state(old(self)@, ne_bytes(i as int, 2)),
    {
        self.0.write_i16(i)
    }

    #[inline]
    fn write_i32(&mut self, i: i32)
        ensures
            final(self)@ == write_state(old(self)@, ne_bytes(i as int, 4)),
    {
        self.0.write_i32(i)
    }

    #[inline]
    fn write_i64(&mut self, i: i64)
        ensures
            final(self)@ == write_state(old(self)@, ne_bytes(i as int, 8)),
    {
        self.0.write_i64(i)
    }

    #[inline]
    fn write_i128(&mut self, i: i128)
        ensures
            final(self)@ == write_state(old(self)@, ne_bytes(i as int, 16)),
    {
        self.0.write_i128(i)
    }

    #[inline]
    fn write_isize(&mut self, i: isize)
        ensures
            final(self)@ == write_state(old(self)@, ne_bytes(i as int, (usize::BITS / 8) as nat)),
    {
        self.0.write_isize(i)
    }
}

} // verus!
