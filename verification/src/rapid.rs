//! The hash written over shrinking slices: every reader takes the front of
//! the slice it is handed, and the core walks its input by cutting the front
//! off.
//!
//! The functions here compute what those of [`crate::rapid_const`] compute and
//! are proved against the same model.

use crate::rapid_const::{
    combine32, core_spec, finish_spec, hash_spec, lane_round, lanes_after, lemma_join_halves,
    mix_spec, mum_spec, read_short, u32_at, u64_at, RAPID_SECRET,
};
use vstd::prelude::*;
use vstd::slice::slice_subrange;

verus! {

/// A word read at the front of what is left of `data` from `at` on is the
/// word of `data` at `at`; and so for the word at `at + k`, read at the front
/// of what is left after `k` more bytes.
pub proof fn lemma_front_reads(data: Seq<u8>, at: int, rest: Seq<u8>)
    requires
        0 <= at <= data.len(),
        rest == data.subrange(at, data.len() as int),
    ensures
        forall|k: int|
            0 <= k && k + 8 <= rest.len() ==> u64_at(
                #[trigger] rest.subrange(k, rest.len() as int),
                0,
            ) == u64_at(data, at + k),
        forall|k: int|
            0 <= k && k + 4 <= rest.len() ==> u32_at(
                #[trigger] rest.subrange(k, rest.len() as int),
                0,
            ) == u32_at(data, at + k),
{
    reveal(u32_at);
}

/// For the lengths four to sixteen, the shift formula for the distance
/// between the two reads gives four from eight bytes on and zero below.
proof fn lemma_delta(len: usize)
    by (bit_vector)
    requires
        4 <= len <= 16,
    ensures
        (len >> 3) <= 2,
        (len & 24) >> (len >> 3) == (if len >= 8 {
            4usize
        } else {
            0usize
        }),
{
}

/// What is left of `slice` from `from` on.
#[inline(always)]
fn tail(slice: &[u8], from: usize) -> (r: &[u8])
    requires
        from <= slice@.len(),
    ensures
        r@ == slice@.subrange(from as int, slice@.len() as int),
{
    slice_subrange(slice, from, slice.len())
}

/// Replaces `a` and `b` by the low and the high half of their full product.
#[inline(always)]
pub fn rapid_mum(a: &mut u64, b: &mut u64)
    ensures
        (*final(a), *final(b)) == mum_spec(*old(a), *old(b)),
{
    let (lo, hi) = crate::rapid_const::rapid_mum(*a, *b);
    *a = lo;
    *b = hi;
}

/// Multiplies two words without loss and folds the halves of the product.
#[inline(always)]
pub fn rapid_mix(a: u64, b: u64) -> (r: u64)
    ensures
        r == mix_spec(a, b),
{
    let mut a: u64 = a;
    let mut b: u64 = b;
    rapid_mum(&mut a, &mut b);
    a ^ b
}

/// Reads the first eight bytes of `slice` as a little-endian word.
#[inline(always)]
pub fn read_u64(slice: &[u8]) -> (r: u64)
    requires
        slice@.len() >= 8,
    ensures
        r == u64_at(slice@, 0),
{
    crate::rapid_const::read_u64(slice, 0)
}

/// Reads the first four bytes of `slice` as a little-endian word.
#[inline(always)]
pub fn read_u32(slice: &[u8]) -> (r: u32)
    requires
        slice@.len() >= 4,
    ensures
        r == u32_at(slice@, 0),
{
    crate::rapid_const::read_u32(slice, 0)
}

/// Folds the accumulators and the total length into the digest.
#[inline(always)]
pub fn rapidhash_finish(a: u64, b: u64, len: u64) -> (r: u64)
    ensures
        r == finish_spec(a, b, len),
{
    rapid_mix(a ^ RAPID_SECRET[0] ^ len, b ^ RAPID_SECRET[1])
}

/// Absorbs `data` into the accumulators `a` and `b` under `seed` and returns
/// the new accumulators and the seed that the input leaves behind.
#[inline(always)]
pub fn rapidhash_core(a: u64, b: u64, seed: u64, data: &[u8]) -> (r: (u64, u64, u64))
    ensures
        r == core_spec(a, b, seed, data@),
{
    let len: usize = data.len();
    let mut a: u64 = a;
    let mut b: u64 = b;
    let mut see0: u64 = seed;
    proof {
        lemma_front_reads(data@, 0, data@);
        assert(data@.subrange(0, len as int) =~= data@);
    }
    if len <= 16 {
        if len >= 4 {
            let plast: usize = len - 4;
            let top: u64 = read_u32(tail(data, 0)) as u64;
            let bot: u64 = read_u32(tail(data, plast)) as u64;
            proof {
                reveal(combine32);
                lemma_join_halves(top, bot);
                lemma_delta(len);
            }
            a ^= (top << 32) | bot;
            let delta: usize = (len & 24) >> (len >> 3);
            let top: u64 = read_u32(tail(data, delta)) as u64;
            let bot: u64 = read_u32(tail(data, plast - delta)) as u64;
            proof {
                lemma_join_halves(top, bot);
            }
            b ^= (top << 32) | bot;
        } else if len > 0 {
            a ^= read_short(data);
        }
    } else {
        let mut slice: &[u8] = data;
        let mut see1: u64 = seed;
        let mut see2: u64 = seed;
        let ghost mut at: int = 0;
        let ghost mut rounds: nat = 0;
        while slice.len() >= 96
            invariant
                len == data@.len(),
                0 <= at <= len,
                at == 48 * rounds,
                slice@ == data@.subrange(at, len as int),
                (see0, see1, see2) == lanes_after(seed, data@, rounds),
            decreases slice@.len(),
        {
            proof {
                lemma_front_reads(data@, at, slice@);
            }
            let ghost before = (see0, see1, see2);
            see0 = rapid_mix(
                read_u64(tail(slice, 0)) ^ RAPID_SECRET[0],
                read_u64(tail(slice, 8)) ^ see0,
            );
            see1 = rapid_mix(
                read_u64(tail(slice, 16)) ^ RAPID_SECRET[1],
                read_u64(tail(slice, 24)) ^ see1,
            );
            see2 = rapid_mix(
                read_u64(tail(slice, 32)) ^ RAPID_SECRET[2],
                read_u64(tail(slice, 40)) ^ see2,
            );
            let ghost middle = (see0, see1, see2);
            see0 = rapid_mix(
                read_u64(tail(slice, 48)) ^ RAPID_SECRET[0],
                read_u64(tail(slice, 56)) ^ see0,
            );
            see1 = rapid_mix(
                read_u64(tail(slice, 64)) ^ RAPID_SECRET[1],
                read_u64(tail(slice, 72)) ^ see1,
            );
            see2 = rapid_mix(
                read_u64(tail(slice, 80)) ^ RAPID_SECRET[2],
                read_u64(tail(slice, 88)) ^ see2,
            );
            slice = tail(slice, 96);
            proof {
                assert(middle == lane_round(before, data@, at));
                assert(lanes_after(seed, data@, rounds + 1) == middle);
                assert((see0, see1, see2) == lane_round(middle, data@, at + 48));
                assert(lanes_after(seed, data@, rounds + 2) == (see0, see1, see2));
                assert(slice@ =~= data@.subrange(at + 96, len as int));
                rounds = rounds + 2;
                at = at + 96;
            }
        }
        if slice.len() >= 48 {
            proof {
                lemma_front_reads(data@, at, slice@);
            }
            let ghost before = (see0, see1, see2);
            see0 = rapid_mix(
                read_u64(tail(slice, 0)) ^ RAPID_SECRET[0],
                read_u64(tail(slice, 8)) ^ see0,
            );
            see1 = rapid_mix(
                read_u64(tail(slice, 16)) ^ RAPID_SECRET[1],
                read_u64(tail(slice, 24)) ^ see1,
            );
            see2 = rapid_mix(
                read_u64(tail(slice, 32)) ^ RAPID_SECRET[2],
                read_u64(tail(slice, 40)) ^ see2,
            );
            slice = tail(slice, 48);
            proof {
                assert((see0, see1, see2) == lane_round(before, data@, at));
                assert(lanes_after(seed, data@, rounds + 1) == (see0, see1, see2));
                assert(slice@ =~= data@.subrange(at + 48, len as int));
                rounds = rounds + 1;
                at = at + 48;
            }
        }
        assert(rounds == data@.len() / 48);
        proof {
            lemma_front_reads(data@, at, slice@);
        }
        see0 ^= see1 ^ see2;
        if slice.len() > 16 {
            see0 = rapid_mix(
                read_u64(tail(slice, 0)) ^ RAPID_SECRET[2],
                read_u64(tail(slice, 8)) ^ see0 ^ RAPID_SECRET[1],
            );
            if slice.len() > 32 {
                see0 = rapid_mix(
                    read_u64(tail(slice, 16)) ^ RAPID_SECRET[2],
                    read_u64(tail(slice, 24)) ^ see0,
                );
            }
        }
        proof {
            lemma_front_reads(data@, 0, data@);
        }
        a ^= read_u64(tail(data, len - 16));
        b ^= read_u64(tail(data, len - 8));
    }
    a ^= RAPID_SECRET[1];
    b ^= see0;
    rapid_mum(&mut a, &mut b);
    (a, b, see0)
}

/// Hashes `data` under `seed` in one pass.
#[inline(always)]
pub fn rapidhash_raw(data: &[u8], seed: u64) -> (r: u64)
    ensures
        r == hash_spec(data@, seed),
{
    let len: u64 = data.len() as u64;
    let seed: u64 = seed ^ rapid_mix(seed ^ RAPID_SECRET[0], RAPID_SECRET[1]) ^ len;
    let (a, b, _) = rapidhash_core(0, 0, seed, data);
    rapidhash_finish(a, b, len)
}

} // verus!
