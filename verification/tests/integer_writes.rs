use rapidhash::bytes::{host_is_little_endian, to_le_bytes, to_ne_bytes, to_ne_bytes_signed};
use rapidhash::{FxRapidHasher, RapidHasher, RapidInlineHasher};
use std::hash::Hasher;

fn rapid_of(bytes: &[u8]) -> u64 {
    let mut hasher = RapidHasher::default();
    hasher.write(bytes);
    hasher.finish()
}

fn inline_of(bytes: &[u8]) -> u64 {
    let mut hasher = RapidInlineHasher::new(17);
    hasher.write(bytes);
    hasher.finish()
}

fn hybrid_of(bytes: &[u8]) -> u64 {
    let mut hasher = FxRapidHasher::new(3);
    hasher.write(bytes);
    hasher.finish()
}

#[test]
fn host_order_is_the_one_std_reports() {
    assert_eq!(host_is_little_endian(), u16::from_ne_bytes([1, 0]) == 1);
    assert_eq!(host_is_little_endian(), 1u32.to_ne_bytes() == 1u32.to_le_bytes());
}

#[test]
fn le_bytes_agree_with_std() {
    let values = [0u128, 1, 0xff, 0x100, 0x0123_4567_89ab_cdef, u64::MAX as u128, u128::MAX, 1 << 127];
    for value in values {
        let all = value.to_le_bytes();
        for width in 0..=16usize {
            let buf = to_le_bytes(value, width);
            assert_eq!(&buf[..width], &all[..width], "value {value} width {width}");
        }
    }
    assert_eq!(to_le_bytes(u128::MAX, 3), [255, 255, 255, 0, 0, 0, 0, 0, 0, 0, 0, 0, 0, 0, 0, 0]);
    assert_eq!(to_ne_bytes(u128::MAX, 2), [255, 255, 0, 0, 0, 0, 0, 0, 0, 0, 0, 0, 0, 0, 0, 0]);
    assert_eq!(to_ne_bytes_signed(-1, 1), [255, 0, 0, 0, 0, 0, 0, 0, 0, 0, 0, 0, 0, 0, 0, 0]);
    assert_eq!(&to_le_bytes(0x0102, 2)[..2], &[2, 1]);
    assert_eq!(&to_le_bytes(0x0102_0304, 3)[..3], &[4, 3, 2]);
}

#[test]
fn ne_bytes_agree_with_std() {
    for value in [0u64, 1, 0xbeef, 0x0123_4567_89ab_cdef, u64::MAX] {
        assert_eq!(&to_ne_bytes(value as u128, 8)[..8], &value.to_ne_bytes());
        assert_eq!(&to_ne_bytes(value as u8 as u128, 1)[..1], &(value as u8).to_ne_bytes());
        assert_eq!(&to_ne_bytes(value as u16 as u128, 2)[..2], &(value as u16).to_ne_bytes());
        assert_eq!(&to_ne_bytes(value as u32 as u128, 4)[..4], &(value as u32).to_ne_bytes());
    }
    for value in [0u128, 1, u128::MAX, 0x0011_2233_4455_6677_8899_aabb_ccdd_eeff] {
        assert_eq!(&to_ne_bytes(value, 16)[..16], &value.to_ne_bytes());
    }
}

#[test]
fn signed_ne_bytes_agree_with_std() {
    for value in [0i64, 1, -1, -2, i64::MIN, i64::MAX, -0x0123_4567_89ab_cdef] {
        assert_eq!(&to_ne_bytes_signed(value as i128, 8)[..8], &value.to_ne_bytes());
        assert_eq!(&to_ne_bytes_signed(value as i8 as i128, 1)[..1], &(value as i8).to_ne_bytes());
        assert_eq!(
            &to_ne_bytes_signed(value as i16 as i128, 2)[..2],
            &(value as i16).to_ne_bytes()
        );
        assert_eq!(
            &to_ne_bytes_signed(value as i32 as i128, 4)[..4],
            &(value as i32).to_ne_bytes()
        );
    }
    for value in [0i128, -1, i128::MIN, i128::MAX, -0x0011_2233_4455_6677_8899_aabb_ccdd_eeff] {
        assert_eq!(&to_ne_bytes_signed(value, 16)[..16], &value.to_ne_bytes());
    }
}

#[test]
fn rapid_hasher_integer_writes_are_byte_writes() {
    for v in [0u64, 1, 200, 0xbeef, 0xdead_beef, 0x0123_4567_89ab_cdef, u64::MAX] {
        let mut h = RapidHasher::default();
        h.write_u8(v as u8);
        assert_eq!(h.finish(), rapid_of(&(v as u8).to_ne_bytes()));
        let mut h = RapidHasher::default();
        h.write_u16(v as u16);
        assert_eq!(h.finish(), rapid_of(&(v as u16).to_ne_bytes()));
        let mut h = RapidHasher::default();
        h.write_u32(v as u32);
        assert_eq!(h.finish(), rapid_of(&(v as u32).to_ne_bytes()));
        let mut h = RapidHasher::default();
        h.write_u64(v);
        assert_eq!(h.finish(), rapid_of(&v.to_ne_bytes()));
        let wide = ((v as u128) << 64) | (!v as u128);
        let mut h = RapidHasher::default();
        h.write_u128(wide);
        assert_eq!(h.finish(), rapid_of(&wide.to_ne_bytes()));
        let mut h = RapidHasher::default();
        h.write_usize(v as usize);
        assert_eq!(h.finish(), rapid_of(&(v as usize).to_ne_bytes()));
        let mut h = RapidHasher::default();
        h.write_i8(v as i8);
        assert_eq!(h.finish(), rapid_of(&(v as i8).to_ne_bytes()));
        let mut h = RapidHasher::default();
        h.write_i16(v as i16);
        assert_eq!(h.finish(), rapid_of(&(v as i16).to_ne_bytes()));
        let mut h = RapidHasher::default();
        h.write_i32(v as i32);
        assert_eq!(h.finish(), rapid_of(&(v as i32).to_ne_bytes()));
        let mut h = RapidHasher::default();
        h.write_i64(v as i64);
        assert_eq!(h.finish(), rapid_of(&(v as i64).to_ne_bytes()));
        let mut h = RapidHasher::default();
        h.write_i128(wide as i128);
        assert_eq!(h.finish(), rapid_of(&(wide as i128).to_ne_bytes()));
        let mut h = RapidHasher::default();
        h.write_isize(v as isize);
        assert_eq!(h.finish(), rapid_of(&(v as isize).to_ne_bytes()));
    }
}

#[test]
fn inline_hasher_integer_writes_are_byte_writes() {
    for v in [0u64, 1, 200, 0xbeef, 0xdead_beef, 0x0123_4567_89ab_cdef, u64::MAX] {
        let mut h = RapidInlineHasher::new(17);
        h.write_u8(v as u8);
        assert_eq!(h.finish(), inline_of(&(v as u8).to_ne_bytes()));
        let mut h = RapidInlineHasher::new(17);
        h.write_u16(v as u16);
        assert_eq!(h.finish(), inline_of(&(v as u16).to_ne_bytes()));
        let mut h = RapidInlineHasher::new(17);
        h.write_u32(v as u32);
        assert_eq!(h.finish(), inline_of(&(v as u32).to_ne_bytes()));
        let mut h = RapidInlineHasher::new(17);
        h.write_u64(v);
        assert_eq!(h.finish(), inline_of(&v.to_ne_bytes()));
        let wide = ((v as u128) << 64) | (!v as u128);
        let mut h = RapidInlineHasher::new(17);
        h.write_u128(wide);
        assert_eq!(h.finish(), inline_of(&wide.to_ne_bytes()));
        let mut h = RapidInlineHasher::new(17);
        h.write_usize(v as usize);
        assert_eq!(h.finish(), inline_of(&(v as usize).to_ne_bytes()));
        let mut h = RapidInlineHasher::new(17);
        h.write_i8(v as i8);
        assert_eq!(h.finish(), inline_of(&(v as i8).to_ne_bytes()));
        let mut h = RapidInlineHasher::new(17);
        h.write_i16(v as i16);
        assert_eq!(h.finish(), inline_of(&(v as i16).to_ne_bytes()));
        let mut h = RapidInlineHasher::new(17);
        h.write_i32(v as i32);
        assert_eq!(h.finish(), inline_of(&(v as i32).to_ne_bytes()));
        let mut h = RapidInlineHasher::new(17);
        h.write_i64(v as i64);
        assert_eq!(h.finish(), inline_of(&(v as i64).to_ne_bytes()));
        let mut h = RapidInlineHasher::new(17);
        h.write_i128(wide as i128);
        assert_eq!(h.finish(), inline_of(&(wide as i128).to_ne_bytes()));
        let mut h = RapidInlineHasher::new(17);
        h.write_isize(v as isize);
        assert_eq!(h.finish(), inline_of(&(v as isize).to_ne_bytes()));
    }
}

#[test]
fn hybrid_hasher_integer_writes_are_byte_writes() {
    for v in [0u64, 1, 200, 0xbeef, 0xdead_beef, 0x0123_4567_89ab_cdef, u64::MAX] {
        let mut h = FxRapidHasher::new(3);
        h.write_u8(v as u8);
        assert_eq!(h.finish(), hybrid_of(&(v as u8).to_ne_bytes()));
        let mut h = FxRapidHasher::new(3);
        h.write_u16(v as u16);
        assert_eq!(h.finish(), hybrid_of(&(v as u16).to_ne_bytes()));
        let mut h = FxRapidHasher::new(3);
        h.write_u32(v as u32);
        assert_eq!(h.finish(), hybrid_of(&(v as u32).to_ne_bytes()));
        let wide = ((v as u128) << 64) | (!v as u128);
        let mut h = FxRapidHasher::new(3);
        h.write_u128(wide);
        assert_eq!(h.finish(), hybrid_of(&wide.to_ne_bytes()));
        let mut h = FxRapidHasher::new(3);
        h.write_usize(v as usize);
        assert_eq!(h.finish(), hybrid_of(&(v as usize).to_ne_bytes()));
        let mut h = FxRapidHasher::new(3);
        h.write_i8(v as i8);
        assert_eq!(h.finish(), hybrid_of(&(v as i8).to_ne_bytes()));
        let mut h = FxRapidHasher::new(3);
        h.write_i16(v as i16);
        assert_eq!(h.finish(), hybrid_of(&(v as i16).to_ne_bytes()));
        let mut h = FxRapidHasher::new(3);
        h.write_i32(v as i32);
        assert_eq!(h.finish(), hybrid_of(&(v as i32).to_ne_bytes()));
        let mut h = FxRapidHasher::new(3);
        h.write_i64(v as i64);
        assert_eq!(h.finish(), hybrid_of(&(v as i64).to_ne_bytes()));
        let mut h = FxRapidHasher::new(3);
        h.write_i128(wide as i128);
        assert_eq!(h.finish(), hybrid_of(&(wide as i128).to_ne_bytes()));
        let mut h = FxRapidHasher::new(3);
        h.write_isize(v as isize);
        assert_eq!(h.finish(), hybrid_of(&(v as isize).to_ne_bytes()));
    }
}

#[test]
fn hybrid_write_u64_is_a_byte_write_on_little_endian_hosts() {
    for v in [0u64, 1, 0xdead_beef, u64::MAX] {
        let mut h = FxRapidHasher::new(3);
        h.write_u64(v);
        assert_eq!(h.finish(), hybrid_of(&v.to_le_bytes()));
    }
}

#[test]
fn integer_writes_exact() {
    if host_is_little_endian() {
        let mut h = RapidHasher::default();
        h.write_u8(200);
        assert_eq!(h.finish(), 7652778177370175378);
        let mut h = RapidHasher::default();
        h.write_i8(-1);
        assert_eq!(h.finish(), 4453553048728641518);
        let mut h = RapidHasher::default();
        h.write_u16(0xbeef);
        assert_eq!(h.finish(), 8379822757798196689);
        let mut h = RapidHasher::default();
        h.write_i64(-2);
        assert_eq!(h.finish(), 15984010604349465360);
        let mut h = RapidHasher::default();
        h.write_u128(0x0123456789abcdef_fedcba9876543210);
        assert_eq!(h.finish(), 5024882961632362222);
    }
}
