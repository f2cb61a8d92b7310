use rapidhash::rapid::{rapid_mum, read_u32, read_u64};

#[test]
fn test_bytes_u32() {
    let bytes = &[23, 145, 3, 34];
    assert_eq!(read_u32(bytes), 570659095);

    assert_eq!(read_u32(&[0, 0, 0, 0]), 0);
    assert_eq!(read_u32(&[1, 0, 0, 0]), 1);
    assert_eq!(read_u32(&[12, 0, 0, 0]), 12);
    assert_eq!(read_u32(&[0, 10, 0, 0]), 2560);
}

#[test]
fn test_bytes_u64() {
    let bytes = [23, 145, 3, 34, 0, 0, 0, 0, 0, 0, 0].as_slice();
    assert_eq!(read_u64(bytes), 570659095);

    let bytes = [0, 0, 0, 0, 0, 0, 0, 0].as_slice();
    assert_eq!(read_u64(bytes), 0);
}

#[test]
#[should_panic]
fn test_bytes_u64_to_short_panics() {
    let bytes = [23, 145, 0].as_slice();
    assert_eq!(read_u64(bytes), 0);
}

#[test]
fn rapid_test_rapid_mum() {
    let mut a = 0;
    let mut b = 0;
    rapid_mum(&mut a, &mut b);
    assert_eq!(a, 0);
    assert_eq!(b, 0);

    let mut a = 100;
    let mut b = 100;
    rapid_mum(&mut a, &mut b);
    assert_eq!(a, 10000);
    assert_eq!(b, 0);

    let mut a = u64::MAX;
    let mut b = 2;
    rapid_mum(&mut a, &mut b);
    assert_eq!(a, u64::MAX - 1);
    assert_eq!(b, 1);
}
