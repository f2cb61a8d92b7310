//! Integers as byte strings: least significant byte first, and in the byte
//! order of the host.
//!
//! The integer writes of the hashers feed an integer's bytes in host order, as
//! `to_ne_bytes` lays them out. Which order that is comes from one probe of the
//! host; the bytes themselves are computed here.

use crate::rapid_const::{combine32, u32_at, u64_at};
use vstd::endian::endianness;
use vstd::prelude::*;

verus! {

/// The `width` low bytes of `value`, least significant byte first. Division
/// and remainder round down, so a negative `value` gives the bytes of its
/// two's complement.
pub open spec fn le_bytes(value: int, width: nat) -> Seq<u8>
    decreases width,
{
    if width == 0 {
        Seq::empty()
    } else {
        seq![(value % 256) as u8] + le_bytes(value / 256, (width - 1) as nat)
    }
}

/// The `width` low bytes of `value` in the byte order of the host: least
/// significant byte first on a little-endian host, last on a big-endian one.
pub open spec fn ne_bytes(value: int, width: nat) -> Seq<u8> {
    if endianness() is Little {
        le_bytes(value, width)
    } else {
        le_bytes(value, width).reverse()
    }
}

/// `le_bytes` yields exactly `width` bytes.
pub proof fn lemma_le_bytes_len(value: int, width: nat)
    ensures
        le_bytes(value, width).len() == width,
    decreases width,
{
    if width > 0 {
        lemma_le_bytes_len(value / 256, (width - 1) as nat);
    }
}

/// `u16::to_ne_bytes` of std: the two bytes of `value` as they lie in the
/// host's memory, that is low byte first on a little-endian host and high byte
/// first on a big-endian one. Believed, not proved.
#[verifier::external_body]
fn ne_bytes_u16(value: u16) -> (r: [u8; 2])
    ensures
        r@ == ne_bytes(value as int, 2),
{
    value.to_ne_bytes()
}

/// Tells whether the host stores the least significant byte first.
pub fn host_is_little_endian() -> (r: bool)
    ensures
        r == (endianness() is Little),
{
    let probe: [u8; 2] = ne_bytes_u16(1);
    proof {
        reveal_with_fuel(le_bytes, 3);
        assert(le_bytes(1, 2) =~= seq![1u8, 0u8]);
        assert(seq![1u8, 0u8].reverse() =~= seq![0u8, 1u8]);
    }
    probe[0] == 1
}

/// Lays the `width` low bytes of `value` into the front of a sixteen-byte
/// buffer, least significant byte first, and leaves the rest of it zero.
pub fn to_le_bytes(value: u128, width: usize) -> (buf: [u8; 16])
    requires
        width <= 16,
    ensures
        buf@.subrange(0, width as int) == le_bytes(value as int, width as nat),
        forall|i: int| width <= i < 16 ==> buf@[i] == 0,
{
    let mut buf: [u8; 16] = [0u8; 16];
    let mut rest: u128 = value;
    let mut i: usize = 0;
    while i < width
        invariant
            i <= width <= 16,
            forall|j: int| i <= j < 16 ==> buf@[j] == 0,
            le_bytes(value as int, width as nat) == buf@.subrange(0, i as int) + le_bytes(
                rest as int,
                (width - i) as nat,
            ),
        decreases width - i,
    {
        let ghost before = buf@;
        assert((rest & 0xff) == rest % 256) by (bit_vector);
        assert((rest >> 8) == rest / 256) by (bit_vector);
        buf[i] = (rest & 0xff) as u8;
        proof {
            let low = seq![(rest as int % 256) as u8];
            let tail = le_bytes(rest as int / 256, (width - i - 1) as nat);
            assert(le_bytes(rest as int, (width - i) as nat) == low + tail);
            assert(buf@.subrange(0, i + 1) =~= before.subrange(0, i as int) + low);
            assert(before.subrange(0, i as int) + (low + tail) =~= (before.subrange(0, i as int)
                + low) + tail);
        }
        rest = rest >> 8;
        i = i + 1;
    }
    proof {
        assert(buf@.subrange(0, width as int) + le_bytes(rest as int, 0) =~= buf@.subrange(
            0,
            width as int,
        ));
    }
    buf
}

/// Lays the `width` low bytes of `value` into the front of a sixteen-byte
/// buffer in the byte order of the host, and leaves the rest of it zero.
pub fn to_ne_bytes(value: u128, width: usize) -> (buf: [u8; 16])
    requires
        width <= 16,
    ensures
        buf@.subrange(0, width as int) == ne_bytes(value as int, width as nat),
        forall|i: int| width <= i < 16 ==> buf@[i] == 0,
{
    let low_first: [u8; 16] = to_le_bytes(value, width);
    if host_is_little_endian() {
        return low_first;
    }
    let mut buf: [u8; 16] = [0u8; 16];
    let mut i: usize = 0;
    while i < width
        invariant
            i <= width <= 16,
            forall|j: int| i <= j < 16 ==> buf@[j] == 0,
            forall|j: int| 0 <= j < i ==> buf@[j] == low_first@[width - 1 - j],
        decreases width - i,
    {
        buf[i] = low_first[width - 1 - i];
        i = i + 1;
    }
    proof {
        let le = low_first@.subrange(0, width as int);
        assert(buf@.subrange(0, width as int) =~= le.reverse());
    }
    buf
}

/// Eight bytes laid least significant first read back as the word that they
/// came from, whatever follows them.
pub proof fn lemma_le_bytes_read_back(word: u64, data: Seq<u8>)
    requires
        data.len() >= 8,
        data.subrange(0, 8) == le_bytes(word as int, 8),
    ensures
        u64_at(data, 0) == word,
{
    reveal(u32_at);
    reveal(combine32);
    reveal_with_fuel(le_bytes, 9);
    let front = data.subrange(0, 8);
    assert(forall|i: int| 0 <= i < 8 ==> data[i] == #[trigger] front[i]);
    let q1 = word as int / 256;
    let q2 = q1 / 256;
    let q3 = q2 / 256;
    let q4 = q3 / 256;
    let q5 = q4 / 256;
    let q6 = q5 / 256;
    let q7 = q6 / 256;
    assert(front[0] == (word as int % 256) as u8);
    assert(front[1] == (q1 % 256) as u8);
    assert(front[2] == (q2 % 256) as u8);
    assert(front[3] == (q3 % 256) as u8);
    assert(front[4] == (q4 % 256) as u8);
    assert(front[5] == (q5 % 256) as u8);
    assert(front[6] == (q6 % 256) as u8);
    assert(front[7] == (q7 % 256) as u8);
    assert(q7 < 256);
}

/// Whether `period` can be divided by 256 `width` times over.
pub open spec fn wraps(period: int, width: nat) -> bool
    decreases width,
{
    width == 0 || (period % 256 == 0 && wraps(period / 256, (width - 1) as nat))
}

/// The low bytes of a value do not change when a multiple of their range is
/// added to it.
pub proof fn lemma_le_bytes_wrap(value: int, period: int, width: nat)
    requires
        wraps(period, width),
    ensures
        le_bytes(value + period, width) == le_bytes(value, width),
    decreases width,
{
    if width > 0 {
        lemma_le_bytes_wrap(value / 256, period / 256, (width - 1) as nat);
    }
}

/// Lays the `width` low bytes of the two's complement of `value` into the
/// front of a sixteen-byte buffer in the byte order of the host, and leaves
/// the rest of it zero.
pub fn to_ne_bytes_signed(value: i128, width: usize) -> (buf: [u8; 16])
    requires
        width <= 16,
    ensures
        buf@.subrange(0, width as int) == ne_bytes(value as int, width as nat),
        forall|i: int| width <= i < 16 ==> buf@[i] == 0,
{
    let bits: u128 = #[verifier::truncate] (value as u128);
    proof {
        assert(value >= 0 ==> bits == value) by (bit_vector)
            requires
                bits == value as u128,
        ;
        assert(value < 0 ==> bits == value + 0x1_0000_0000_0000_0000_0000_0000_0000_0000int)
            by (bit_vector)
            requires
                bits == value as u128,
        ;
        if value < 0 {
            reveal_with_fuel(wraps, 17);
            lemma_le_bytes_wrap(
                value as int,
                0x1_0000_0000_0000_0000_0000_0000_0000_0000int,
                width as nat,
            );
        }
    }
    to_ne_bytes(bits, width)
}

} // verus!
