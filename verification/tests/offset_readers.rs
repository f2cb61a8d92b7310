use rapidhash::rapid_const::{rapid_mum, read_u32, read_u64};

#[test]
fn test_read_u32() {
    let bytes = &[23, 145, 3, 34];

    let split_result = bytes.split_at(0).1;
    assert_eq!(split_result.len(), 4);
    let maybe_buf = split_result.first_chunk::<4>();
    assert_eq!(maybe_buf, Some(&[23, 145, 3, 34]));

    assert_eq!(read_u32(bytes, 0), 570659095);

    let bytes = &[24, 54, 3, 23, 145, 3, 34];
    assert_eq!(read_u32(bytes, 3), 570659095);

    assert_eq!(read_u32(&[0, 0, 0, 0], 0), 0);
    assert_eq!(read_u32(&[1, 0, 0, 0], 0), 1);
    assert_eq!(read_u32(&[12, 0, 0, 0], 0), 12);
    assert_eq!(read_u32(&[0, 10, 0, 0], 0), 2560);
}

#[test]
fn test_read_u64() {
    let bytes = [23, 145, 3, 34, 0, 0, 0, 0, 0, 0, 0].as_slice();
    assert_eq!(read_u64(bytes, 0), 570659095);

    let bytes = [1, 2, 3, 23, 145, 3, 34, 0, 0, 0, 0, 0, 0, 0].as_slice();
    assert_eq!(read_u64(bytes, 3), 570659095);

    let bytes = [0, 0, 0, 0, 0, 0, 0, 0].as_slice();
    assert_eq!(read_u64(bytes, 0), 0);
}

#[test]
fn test_u32_to_u128_delta() {
    fn formula(len: u64) -> u64 {
        (len & 24) >> (len >> 3)
    }

    fn formula2(len: u64) -> u64 {
        match len {
            8.. => 4,
            _ => 0,
        }
    }

    let inputs: Vec<u64> = (4..=16).collect();
    let outputs: Vec<u64> = inputs.iter().map(|&x| formula(x)).collect();
    let expected = vec![0, 0, 0, 0, 4, 4, 4, 4, 4, 4, 4, 4, 4];
    assert_eq!(outputs, expected);
    assert_eq!(outputs, inputs.iter().map(|&x| formula2(x)).collect::<Vec<u64>>());
}

#[test]
#[should_panic]
fn test_read_u32_to_short_panics() {
    let bytes = [23, 145, 0].as_slice();
    assert_eq!(read_u32(bytes, 0), 0);
}

#[test]
#[should_panic]
fn test_read_u64_to_short_panics() {
    let bytes = [23, 145, 0].as_slice();
    assert_eq!(read_u64(bytes, 0), 0);
}

#[test]
fn rapid_const_test_rapid_mum() {
    let (a, b) = rapid_mum(0, 0);
    assert_eq!(a, 0);
    assert_eq!(b, 0);

    let (a, b) = rapid_mum(100, 100);
    assert_eq!(a, 10000);
    assert_eq!(b, 0);

    let (a, b) = rapid_mum(u64::MAX, 2);
    assert_eq!(a, u64::MAX - 1);
    assert_eq!(b, 1);
}

#[test]
fn readers_agree_at_every_offset() {
    let data: Vec<u8> = (0..64u8).map(|i| i.wrapping_mul(37).wrapping_add(11)).collect();
    for offset in 0..=data.len() - 8 {
        let by_offset = read_u64(&data, offset);
        assert_eq!(by_offset, rapidhash::rapid::read_u64(&data[offset..]));
        assert_eq!(by_offset, u64::from_le_bytes(data[offset..offset + 8].try_into().unwrap()));
    }
    for offset in 0..=data.len() - 4 {
        let by_offset = read_u32(&data, offset);
        assert_eq!(by_offset, rapidhash::rapid::read_u32(&data[offset..]));
        assert_eq!(by_offset, u32::from_le_bytes(data[offset..offset + 4].try_into().unwrap()));
    }
}
