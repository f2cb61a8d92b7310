//! The mixing step, the little-endian readers, the seed evolution, the
//! compression core and the one-shot hash, each beside its mathematical model.
//!
//! The model reads a byte string as a `Seq<u8>` and states every word as
//! arithmetic on its bytes; the executable functions are proved to compute it.

use vstd::prelude::*;

verus! {

/// The default seed.
pub const RAPID_SEED: u64 = 0xbdd89aa982704029;

/// The three secrets that the mixing rounds cycle through.
pub const RAPID_SECRET: [u64; 3] = [0x2d358dccaa6c78a5, 0x8bb84b93962eacc9, 0x4b33a62ed433d4a3];

/// The full product of two words, as its low and its high half.
#[verifier::opaque]
pub open spec fn mum_spec(a: u64, b: u64) -> (u64, u64) {
    (
        ((a as int * b as int) % 0x1_0000_0000_0000_0000) as u64,
        ((a as int * b as int) / 0x1_0000_0000_0000_0000) as u64,
    )
}

/// The two halves of the full product, folded by exclusive or.
pub open spec fn mix_spec(a: u64, b: u64) -> u64 {
    mum_spec(a, b).0 ^ mum_spec(a, b).1
}

/// The value of the four bytes of `data` from `offset` on, least significant
/// byte first.
#[verifier::opaque]
pub open spec fn u32_at(data: Seq<u8>, offset: int) -> u32 {
    (data[offset] as int + 0x100 * data[offset + 1] as int + 0x1_0000 * data[offset + 2] as int
        + 0x100_0000 * data[offset + 3] as int) as u32
}

/// A word made of `top` as its high half and `bot` as its low half.
#[verifier::opaque]
pub open spec fn combine32(top: u32, bot: u32) -> u64 {
    (0x1_0000_0000 * top as int + bot as int) as u64
}

/// The value of the eight bytes of `data` from `offset` on, least significant
/// byte first.
pub open spec fn u64_at(data: Seq<u8>, offset: int) -> u64 {
    combine32(u32_at(data, offset + 4), u32_at(data, offset))
}

/// The word that stands for an input of one to three bytes: its first byte in
/// the top byte, its middle byte above the low half, its last byte at the
/// bottom.
#[verifier::opaque]
pub open spec fn short_word(data: Seq<u8>) -> u64 {
    (0x100_0000_0000_0000 * data[0] as int + 0x1_0000_0000 * data[data.len() as int / 2] as int
        + data[data.len() - 1] as int) as u64
}

/// The seed for an input of `len` bytes in all, derived from the seed before.
pub open spec fn seed_spec(seed: u64, len: u64) -> u64 {
    seed ^ mix_spec(seed ^ RAPID_SECRET[0], RAPID_SECRET[1]) ^ len
}

/// One round over the 48 bytes of `data` from `at` on: each of the three lanes
/// absorbs sixteen bytes under its own secret.
pub open spec fn lane_round(lanes: (u64, u64, u64), data: Seq<u8>, at: int) -> (u64, u64, u64) {
    (
        mix_spec(u64_at(data, at) ^ RAPID_SECRET[0], u64_at(data, at + 8) ^ lanes.0),
        mix_spec(u64_at(data, at + 16) ^ RAPID_SECRET[1], u64_at(data, at + 24) ^ lanes.1),
        mix_spec(u64_at(data, at + 32) ^ RAPID_SECRET[2], u64_at(data, at + 40) ^ lanes.2),
    )
}

/// The three lanes after `rounds` rounds over the first `48 * rounds` bytes of
/// `data`, all three starting at `seed`.
pub open spec fn lanes_after(seed: u64, data: Seq<u8>, rounds: nat) -> (u64, u64, u64)
    decreases rounds,
{
    if rounds == 0 {
        (seed, seed, seed)
    } else {
        lane_round(lanes_after(seed, data, (rounds - 1) as nat), data, 48 * (rounds - 1))
    }
}

/// The seed that an input of more than sixteen bytes leaves behind: one lane
/// round for every whole 48 bytes, the lanes folded into one, then up to two
/// sixteen-byte rounds over what is left.
pub open spec fn long_seed(seed: u64, data: Seq<u8>) -> u64 {
    let rounds = data.len() / 48;
    let at = 48 * rounds as int;
    let left = data.len() - at;
    let lanes = lanes_after(seed, data, rounds);
    let folded = lanes.0 ^ (lanes.1 ^ lanes.2);
    let once = mix_spec(
        u64_at(data, at) ^ RAPID_SECRET[2],
        u64_at(data, at + 8) ^ folded ^ RAPID_SECRET[1],
    );
    if left > 32 {
        mix_spec(u64_at(data, at + 16) ^ RAPID_SECRET[2], u64_at(data, at + 24) ^ once)
    } else if left > 16 {
        once
    } else {
        folded
    }
}

/// The accumulators and the seed before the closing multiplication, by the
/// length of `data`: nothing is absorbed from an empty input, one word from
/// one to three bytes, the first and last four bytes from four to seven, the
/// first and last eight from eight to sixteen, and the last sixteen bytes
/// together with [`long_seed`] from anything longer.
pub open spec fn absorb_spec(a: u64, b: u64, seed: u64, data: Seq<u8>) -> (u64, u64, u64) {
    let len = data.len() as int;
    if len == 0 {
        (a, b, seed)
    } else if len <= 3 {
        (a ^ short_word(data), b, seed)
    } else if len <= 7 {
        (
            a ^ combine32(u32_at(data, 0), u32_at(data, len - 4)),
            b ^ combine32(u32_at(data, 0), u32_at(data, len - 4)),
            seed,
        )
    } else if len <= 16 {
        (
            a ^ combine32(u32_at(data, 0), u32_at(data, len - 4)),
            b ^ combine32(u32_at(data, 4), u32_at(data, len - 8)),
            seed,
        )
    } else {
        (a ^ u64_at(data, len - 16), b ^ u64_at(data, len - 8), long_seed(seed, data))
    }
}

/// The compression core: `data` is absorbed into the accumulators as
/// [`absorb_spec`] says, then the two are replaced by the halves of their
/// product, the first under the second secret and the second under the seed.
pub open spec fn core_spec(a: u64, b: u64, seed: u64, data: Seq<u8>) -> (u64, u64, u64) {
    let (a1, b1, seed1) = absorb_spec(a, b, seed, data);
    let (lo, hi) = mum_spec(a1 ^ RAPID_SECRET[1], b1 ^ seed1);
    (lo, hi, seed1)
}

/// The digest of accumulators `a` and `b` after `len` bytes in all.
pub open spec fn finish_spec(a: u64, b: u64, len: u64) -> u64 {
    mix_spec(a ^ RAPID_SECRET[0] ^ len, b ^ RAPID_SECRET[1])
}

/// The hash of `data` under `seed`, for an input of fewer than two to the 64
/// bytes: the seed evolved by the length, the core run once over the whole
/// input from empty accumulators, and the digest.
pub open spec fn hash_spec(data: Seq<u8>, seed: u64) -> u64 {
    let (a, b, _) = core_spec(0, 0, seed_spec(seed, data.len() as u64), data);
    finish_spec(a, b, data.len() as u64)
}

/// A high and a low half that do not overlap are joined by `|` as by `+`.
pub(crate) proof fn lemma_join_halves(top: u64, bot: u64)
    by (bit_vector)
    requires
        top < 0x1_0000_0000,
        bot < 0x1_0000_0000,
    ensures
        (top << 32) | bot == 0x1_0000_0000 * top + bot,
        bot | (top << 32) == 0x1_0000_0000 * top + bot,
{
}

/// Multiplies two words without loss and returns the low and the high half of
/// the 128-bit product.
#[inline(always)]
pub fn rapid_mum(a: u64, b: u64) -> (r: (u64, u64))
    ensures
        r == mum_spec(a, b),
{
    assert(0 <= a as int * b as int <= 0xffff_ffff_ffff_ffff * 0xffff_ffff_ffff_ffff)
        by (nonlinear_arith)
        requires
            0 <= a as int <= 0xffff_ffff_ffff_ffff,
            0 <= b as int <= 0xffff_ffff_ffff_ffff,
    ;
    let r: u128 = a as u128 * b as u128;
    reveal(mum_spec);
    assert(r as u64 == r % 0x1_0000_0000_0000_0000) by (bit_vector);
    assert((r >> 64) == r / 0x1_0000_0000_0000_0000) by (bit_vector);
    (r as u64, (r >> 64) as u64)
}

/// Multiplies two words without loss and folds the halves of the product.
#[inline(always)]
pub fn rapid_mix(a: u64, b: u64) -> (r: u64)
    ensures
        r == mix_spec(a, b),
{
    let (lo, hi) = rapid_mum(a, b);
    lo ^ hi
}

/// Evolves the seed for an input of `len` bytes in all.
#[inline(always)]
pub fn rapidhash_seed(seed: u64, len: u64) -> (r: u64)
    ensures
        r == seed_spec(seed, len),
{
    seed ^ rapid_mix(seed ^ RAPID_SECRET[0], RAPID_SECRET[1]) ^ len
}

/// Folds the accumulators and the total length into the digest.
#[inline(always)]
pub fn rapidhash_finish(a: u64, b: u64, len: u64) -> (r: u64)
    ensures
        r == finish_spec(a, b, len),
{
    rapid_mix(a ^ RAPID_SECRET[0] ^ len, b ^ RAPID_SECRET[1])
}

/// Reads four bytes from `offset` on as a little-endian word, whatever the
/// host's byte order.
#[inline(always)]
pub fn read_u32(slice: &[u8], offset: usize) -> (r: u32)
    requires
        offset + 4 <= slice@.len(),
    ensures
        r == u32_at(slice@, offset as int),
{
    reveal(u32_at);
    let b0: u32 = slice[offset] as u32;
    let b1: u32 = slice[offset + 1] as u32;
    let b2: u32 = slice[offset + 2] as u32;
    let b3: u32 = slice[offset + 3] as u32;
    assert(b0 | (b1 << 8) | (b2 << 16) | (b3 << 24) == b0 + 0x100 * b1 + 0x1_0000 * b2 + 0x100_0000
        * b3) by (bit_vector)
        requires
            b0 < 0x100,
            b1 < 0x100,
            b2 < 0x100,
            b3 < 0x100,
    ;
    b0 | (b1 << 8) | (b2 << 16) | (b3 << 24)
}

/// Reads eight bytes from `offset` on as a little-endian word, whatever the
/// host's byte order.
#[inline(always)]
pub fn read_u64(slice: &[u8], offset: usize) -> (r: u64)
    requires
        offset + 8 <= slice@.len(),
    ensures
        r == u64_at(slice@, offset as int),
{
    reveal(combine32);
    assert(slice@.len() == slice.len());
    let bot: u64 = read_u32(slice, offset) as u64;
    let top: u64 = read_u32(slice, offset + 4) as u64;
    proof {
        lemma_join_halves(top, bot);
    }
    bot | (top << 32)
}

/// Reads two little-endian 32-bit words and joins them: the one at
/// `offset_top` becomes the high half, the one at `offset_bot` the low half.
#[inline(always)]
pub fn read_u32_combined(slice: &[u8], offset_top: usize, offset_bot: usize) -> (r: u64)
    requires
        offset_top + 4 <= slice@.len(),
        offset_bot + 4 <= slice@.len(),
    ensures
        r == combine32(u32_at(slice@, offset_top as int), u32_at(slice@, offset_bot as int)),
{
    reveal(combine32);
    let top: u64 = read_u32(slice, offset_top) as u64;
    let bot: u64 = read_u32(slice, offset_bot) as u64;
    proof {
        lemma_join_halves(top, bot);
    }
    (top << 32) | bot
}

/// The word for an input of one to three bytes.
#[inline(always)]
pub(crate) fn read_short(data: &[u8]) -> (r: u64)
    requires
        1 <= data@.len() <= 3,
    ensures
        r == short_word(data@),
{
    reveal(short_word);
    let len: usize = data.len();
    assert(len >> 1 == len / 2) by (bit_vector);
    let first: u64 = data[0] as u64;
    let mid: u64 = data[len >> 1] as u64;
    let last: u64 = data[len - 1] as u64;
    assert((first << 56) | (mid << 32) | last == 0x100_0000_0000_0000 * first + 0x1_0000_0000 * mid
        + last) by (bit_vector)
        requires
            first < 0x100,
            mid < 0x100,
            last < 0x100,
    ;
    (first << 56) | (mid << 32) | last
}

/// Runs the lane rounds and the closing sixteen-byte rounds over an input of
/// more than sixteen bytes. The loop takes two lane rounds at a time.
pub(crate) fn mix_long(seed: u64, data: &[u8]) -> (r: u64)
    requires
        data@.len() > 16,
    ensures
        r == long_seed(seed, data@),
{
    let len: usize = data.len();
    let mut at: usize = 0;
    let mut see0: u64 = seed;
    let mut see1: u64 = seed;
    let mut see2: u64 = seed;
    let ghost mut rounds: nat = 0;
    while len - at >= 96
        invariant
            len == data@.len(),
            at <= len,
            at == 48 * rounds,
            (see0, see1, see2) == lanes_after(seed, data@, rounds),
        decreases len - at,
    {
        let ghost before = (see0, see1, see2);
        see0 = rapid_mix(read_u64(data, at) ^ RAPID_SECRET[0], read_u64(data, at + 8) ^ see0);
        see1 = rapid_mix(read_u64(data, at + 16) ^ RAPID_SECRET[1], read_u64(data, at + 24) ^ see1);
        see2 = rapid_mix(read_u64(data, at + 32) ^ RAPID_SECRET[2], read_u64(data, at + 40) ^ see2);
        let ghost middle = (see0, see1, see2);
        see0 = rapid_mix(read_u64(data, at + 48) ^ RAPID_SECRET[0], read_u64(data, at + 56) ^ see0);
        see1 = rapid_mix(read_u64(data, at + 64) ^ RAPID_SECRET[1], read_u64(data, at + 72) ^ see1);
        see2 = rapid_mix(read_u64(data, at + 80) ^ RAPID_SECRET[2], read_u64(data, at + 88) ^ see2);
        proof {
            assert(middle == lane_round(before, data@, at as int));
            assert(lanes_after(seed, data@, rounds + 1) == middle);
            assert((see0, see1, see2) == lane_round(middle, data@, at + 48));
            assert(lanes_after(seed, data@, rounds + 2) == (see0, see1, see2));
            rounds = rounds + 2;
        }
        at = at + 96;
    }
    if len - at >= 48 {
        let ghost before = (see0, see1, see2);
        see0 = rapid_mix(read_u64(data, at) ^ RAPID_SECRET[0], read_u64(data, at + 8) ^ see0);
        see1 = rapid_mix(read_u64(data, at + 16) ^ RAPID_SECRET[1], read_u64(data, at + 24) ^ see1);
        see2 = rapid_mix(read_u64(data, at + 32) ^ RAPID_SECRET[2], read_u64(data, at + 40) ^ see2);
        proof {
            assert((see0, see1, see2) == lane_round(before, data@, at as int));
            assert(lanes_after(seed, data@, rounds + 1) == (see0, see1, see2));
            rounds = rounds + 1;
        }
        at = at + 48;
    }
    assert(rounds == data@.len() / 48);
    let mut out: u64 = see0 ^ (see1 ^ see2);
    if len - at > 16 {
        out = rapid_mix(
            read_u64(data, at) ^ RAPID_SECRET[2],
            read_u64(data, at + 8) ^ out ^ RAPID_SECRET[1],
        );
        if len - at > 32 {
            out = rapid_mix(read_u64(data, at + 16) ^ RAPID_SECRET[2], read_u64(data, at + 24) ^ out);
        }
    }
    out
}

/// Absorbs `data` into the accumulators `a` and `b` under `seed` and returns
/// the new accumulators and the seed that the input leaves behind.
#[inline(always)]
pub fn rapidhash_core(a: u64, b: u64, seed: u64, data: &[u8]) -> (r: (u64, u64, u64))
    ensures
        r == core_spec(a, b, seed, data@),
{
    let len: usize = data.len();
    let mut a: u64 = a;
    let mut b: u64 = b;
    let mut seed: u64 = seed;
    if len <= 16 {
        if len >= 8 {
            let plast: usize = len - 4;
            let delta: usize = 4;
            a ^= read_u32_combined(data, 0, plast);
            b ^= read_u32_combined(data, delta, plast - delta);
        } else if len >= 4 {
            let plast: usize = len - 4;
            let delta: usize = 0;
            a ^= read_u32_combined(data, 0, plast);
            b ^= read_u32_combined(data, delta, plast - delta);
        } else if len > 0 {
            a ^= read_short(data);
        }
    } else {
        seed = mix_long(seed, data);
        a ^= read_u64(data, len - 16);
        b ^= read_u64(data, len - 8);
    }
    a ^= RAPID_SECRET[1];
    b ^= seed;
    let (lo, hi) = rapid_mum(a, b);
    (lo, hi, seed)
}

/// Hashes `data` under `seed` in one pass.
#[inline(always)]
pub fn rapidhash_inline(data: &[u8], seed: u64) -> (r: u64)
    ensures
        r == hash_spec(data@, seed),
{
    let len: u64 = data.len() as u64;
    let seed: u64 = rapidhash_seed(seed, len);
    let (a, b, _) = rapidhash_core(0, 0, seed, data);
    rapidhash_finish(a, b, len)
}

/// Hashes `data` under the default seed.
#[inline]
pub fn rapidhash(data: &[u8]) -> (r: u64)
    ensures
        r == hash_spec(data@, RAPID_SEED),
{
    rapidhash_inline(data, RAPID_SEED)
}

/// Hashes `data` under a seed of the caller's choice.
#[inline]
pub fn rapidhash_seeded(data: &[u8], seed: u64) -> (r: u64)
    ensures
        r == hash_spec(data@, seed),
{
    rapidhash_inline(data, seed)
}

} // verus!
