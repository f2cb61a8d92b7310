//! A hybrid hasher: a cheap rotate, exclusive-or and multiply fold for chunks of
//! up to sixteen bytes, and the full hash for longer ones.
//!
//! Short keys dominate many hash tables, so the short path is kept small and
//! the long path is kept out of line.

use crate::bytes::{
    le_bytes, lemma_le_bytes_len, lemma_le_bytes_read_back, ne_bytes, to_ne_bytes,
    to_ne_bytes_signed,
};
use crate::rapid_const::{
    hash_spec, mix_long, rapid_mix, rapid_mum, read_u32, read_u64, u32_at, u64_at, RAPID_SECRET,
};
use core::hash::Hasher;
use vstd::endian::endianness;
use vstd::prelude::*;
use vstd::slice::slice_subrange;

verus! {

/// The multiplier of the short fold.
pub const FX_MULTIPLIER: u64 = 0x517cc1b727220a95;

/// One step of the short fold: `hash` is rotated left by five bits, `word` is
/// folded in by exclusive or, and the result is multiplied by
/// [`FX_MULTIPLIER`] modulo two to the 64.
pub open spec fn fx_word(hash: u64, word: u64) -> u64 {
    (((((hash << 5) | (hash >> 59)) ^ word) as int * FX_MULTIPLIER as int)
        % 0x1_0000_0000_0000_0000) as u64
}

/// The short fold over `bytes` from `at` on: eight-byte words while eight
/// bytes are left, then one four-byte word if four are left, then the bytes
/// that remain one by one, each read least significant byte first.
pub open spec fn fx_fold(bytes: Seq<u8>, at: int, hash: u64) -> u64
    decreases bytes.len() - at,
{
    let left = bytes.len() - at;
    if left >= 8 {
        fx_fold(bytes, at + 8, fx_word(hash, u64_at(bytes, at)))
    } else if left >= 4 {
        fx_fold(bytes, at + 4, fx_word(hash, u32_at(bytes, at) as u64))
    } else if left >= 1 {
        fx_fold(bytes, at + 1, fx_word(hash, bytes[at] as u64))
    } else {
        hash
    }
}

/// What one write of `bytes` makes of the accumulator `hash`: the short fold
/// for up to sixteen bytes, the full hash with `hash` as its seed beyond.
pub open spec fn fxrapid_spec(bytes: Seq<u8>, hash: u64) -> u64 {
    if bytes.len() <= 16 {
        fx_fold(bytes, 0, hash)
    } else {
        hash_spec(bytes, hash)
    }
}

/// On a host that stores the least significant byte first, folding in a
/// 64-bit integer as one word gives what a write of its eight bytes gives.
pub proof fn lemma_word_write_is_byte_write(hash: u64, i: u64)
    requires
        endianness() is Little,
    ensures
        fxrapid_spec(ne_bytes(i as int, 8), hash) == fx_word(hash, i),
{
    let bytes = le_bytes(i as int, 8);
    lemma_le_bytes_len(i as int, 8);
    assert(bytes.subrange(0, 8) =~= bytes);
    lemma_le_bytes_read_back(i, bytes);
    reveal_with_fuel(fx_fold, 2);
}

/// Folds one word into `hash`.
#[inline(always)]
pub fn hash_word(hash: &mut u64, word: u64)
    ensures
        *final(hash) == fx_word(*old(hash), word),
{
    let turned: u64 = (*hash << 5) | (*hash >> 59);
    *hash = (turned ^ word).wrapping_mul(FX_MULTIPLIER);
}

/// Hashes `bytes` into the accumulator `hash` and returns the new accumulator.
#[inline(always)]
pub fn fxrapidhash(bytes: &[u8], hash: u64) -> (r: u64)
    ensures
        r == fxrapid_spec(bytes@, hash),
{
    let len: usize = bytes.len();
    if len <= 16 {
        let mut acc: u64 = hash;
        let mut at: usize = 0;
        while len - at >= 8
            invariant
                len == bytes@.len(),
                at <= len,
                fx_fold(bytes@, at as int, acc) == fx_fold(bytes@, 0, hash),
            decreases len - at,
        {
            let n: u64 = read_u64(bytes, at);
            hash_word(&mut acc, n);
            at = at + 8;
        }
        if len - at >= 4 {
            let n: u32 = read_u32(bytes, at);
            hash_word(&mut acc, n as u64);
            at = at + 4;
        }
        while at < len
            invariant
                len == bytes@.len(),
                at <= len,
                len - at < 4,
                fx_fold(bytes@, at as int, acc) == fx_fold(bytes@, 0, hash),
            decreases len - at,
        {
            hash_word(&mut acc, bytes[at] as u64);
            at = at + 1;
        }
        acc
    } else {
        rapidhash_cold(bytes, hash)
    }
}

/// Exclusive or with zero changes nothing.
proof fn lemma_xor_zero(x: u64)
    by (bit_vector)
    ensures
        0 ^ x == x,
{
}

/// The full hash, for inputs of more than sixteen bytes only. It is kept out
/// of line so that the short path of [`fxrapidhash`] stays small.
#[inline(never)]
fn rapidhash_cold(data: &[u8], seed: u64) -> (r: u64)
    requires
        data@.len() > 16,
    ensures
        r == hash_spec(data@, seed),
{
    let len: usize = data.len();
    let seed: u64 = seed ^ rapid_mix(seed ^ RAPID_SECRET[0], RAPID_SECRET[1]) ^ (len as u64);
    let seed: u64 = mix_long(seed, data);
    let a: u64 = read_u64(data, len - 16) ^ RAPID_SECRET[1];
    let b: u64 = read_u64(data, len - 8) ^ seed;
    proof {
        lemma_xor_zero(u64_at(data@, len - 16));
        lemma_xor_zero(u64_at(data@, len - 8));
    }
    let (a, b) = rapid_mum(a, b);
    rapid_mix(a ^ RAPID_SECRET[0] ^ (len as u64), b ^ RAPID_SECRET[1])
}

/// A hasher that holds one accumulator word and folds each write into it
/// with [`fxrapidhash`]. It does no seeding of its own.
pub struct FxRapidHasher {
    hash: u64,
}

/// A builder of [`FxRapidHasher`]s that all start from zero.
pub type FxRapidHashBuilder = core::hash::BuildHasherDefault<FxRapidHasher>;

/// A hash map keyed through [`FxRapidHasher`].
pub type FxRapidHashMap<K, V> = std::collections::HashMap<K, V, FxRapidHashBuilder>;

/// A hash set keyed through [`FxRapidHasher`].
pub type FxRapidHashSet<K> = std::collections::HashSet<K, FxRapidHashBuilder>;

impl View for FxRapidHasher {
    type V = u64;

    closed spec fn view(&self) -> u64 {
        self.hash
    }
}

impl FxRapidHasher {
    /// A hasher whose accumulator starts at `seed`.
    #[inline]
    pub fn new(seed: u64) -> (r: Self)
        ensures
            r@ == seed,
    {
        Self { hash: seed }
    }

    /// Writes the `width` low bytes of `value` in the byte order of the host.
    #[inline]
    fn write_native(&mut self, value: u128, width: usize)
        requires
            width <= 16,
        ensures
            final(self)@ == fxrapid_spec(ne_bytes(value as int, width as nat), old(self)@),
    {
        let buf: [u8; 16] = to_ne_bytes(value, width);
        self.hash = fxrapidhash(slice_subrange(buf.as_slice(), 0, width), self.hash);
    }

    /// Writes the `width` low bytes of the two's complement of `value` in the
    /// byte order of the host.
    #[inline]
    fn write_native_signed(&mut self, value: i128, width: usize)
        requires
            width <= 16,
        ensures
            final(self)@ == fxrapid_spec(ne_bytes(value as int, width as nat), old(self)@),
    {
        let buf: [u8; 16] = to_ne_bytes_signed(value, width);
        self.hash = fxrapidhash(slice_subrange(buf.as_slice(), 0, width), self.hash);
    }
}

impl Default for FxRapidHasher {
    /// A hasher whose accumulator starts at zero.
    #[inline]
    fn default() -> (r: Self)
        ensures
            r@ == 0,
    {
        Self { hash: 0 }
    }
}

/// Each integer write but `write_u64` is one write of the integer's bytes in
/// the byte order of the host; a signed integer is written in two's
/// complement.
impl Hasher for FxRapidHasher {
    #[inline(always)]
    fn finish(&self) -> (r: u64)
        ensures
            r == self@,
    {
        self.hash
    }

    #[inline(always)]
    fn write(&mut self, bytes: &[u8])
        ensures
            final(self)@ == fxrapid_spec(bytes@, old(self)@),
    {
        self.hash = fxrapidhash(bytes, self.hash);
    }

    #[inline]
    fn write_u8(&mut self, i: u8)
        ensures
            final(self)@ == fxrapid_spec(ne_bytes(i as int, 1), old(self)@),
    {
        self.write_native(i as u128, 1);
    }

    #[inline]
    fn write_u16(&mut self, i: u16)
        ensures
            final(self)@ == fxrapid_spec(ne_bytes(i as int, 2), old(self)@),
    {
        self.write_native(i as u128, 2);
    }

    #[inline]
    fn write_u32(&mut self, i: u32)
        ensures
            final(self)@ == fxrapid_spec(ne_bytes(i as int, 4), old(self)@),
    {
        self.write_native(i as u128, 4);
    }

    /// Folds `i` in as one word, without a detour through its bytes.
    #[inline]
    fn write_u64(&mut self, i: u64)
        ensures
            final(self)@ == fx_word(old(self)@, i),
    {
        hash_word(&mut self.hash, i);
    }

    #[inline]
    fn write_u128(&mut self, i: u128)
        ensures
            final(self)@ == fxrapid_spec(ne_bytes(i as int, 16), old(self)@),
    {
        self.write_native(i, 16);
    }

    #[inline]
    fn write_usize(&mut self, i: usize)
        ensures
            final(self)@ == fxrapid_spec(ne_bytes(i as int, (usize::BITS / 8) as nat), old(self)@),
    {
        self.write_native(i as u128, (usize::BITS / 8) as usize);
    }

    #[inline]
    fn write_i8(&mut self, i: i8)
        ensures
            final(self)@ == fxrapid_spec(ne_bytes(i as int, 1), old(self)@),
    {
        self.write_native_signed(i as i128, 1);
    }

    #[inline]
    fn write_i16(&mut self, i: i16)
        ensures
            final(self)@ == fxrapid_spec(ne_bytes(i as int, 2), old(self)@),
    {
        self.write_native_signed(i as i128, 2);
    }

    #[inline]
    fn write_i32(&mut self, i: i32)
        ensures
            final(self)@ == fxrapid_spec(ne_bytes(i as int, 4), old(self)@),
    {
        self.write_native_signed(i as i128, 4);
    }

    #[inline]
    fn write_i64(&mut self, i: i64)
        ensures
            final(self)@ == fxrapid_spec(ne_bytes(i as int, 8), old(self)@),
    {
        self.write_native_signed(i as i128, 8);
    }

    #[inline]
    fn write_i128(&mut self, i: i128)
        ensures
            final(self)@ == fxrapid_spec(ne_bytes(i as int, 16), old(self)@),
    {
        self.write_native_signed(i, 16);
    }

    #[inline]
    fn write_isize(&mut self, i: isize)
        ensures
            final(self)@ == fxrapid_spec(ne_bytes(i as int, (usize::BITS / 8) as nat), old(self)@),
    {
        self.write_native_signed(i as i128, (usize::BITS / 8) as usize);
    }
}

} // verus!
