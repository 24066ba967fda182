use linnstrument_cli::little_endian::{i32_from_le_bytes, u32_from_le_bytes, u32_to_le_bytes};

#[test]
fn bytes_come_least_significant_first() {
    assert_eq!(u32_to_le_bytes(0x0403_0201), vec![1, 2, 3, 4]);
    assert_eq!(u32_from_le_bytes(&[1, 2, 3, 4]), 0x0403_0201);
}

#[test]
fn signed_numbers_are_in_twos_complement() {
    assert_eq!(i32_from_le_bytes(&[0xff, 0xff, 0xff, 0xff]), -1);
    assert_eq!(i32_from_le_bytes(&[0, 0, 0, 0x80]), i32::MIN);
    assert_eq!(i32_from_le_bytes(&[0xff, 0xff, 0xff, 0x7f]), i32::MAX);
    assert_eq!(i32_from_le_bytes(&[0, 1, 0, 0]), 256);
}

#[test]
fn agrees_with_the_standard_library() {
    for x in [0u32, 1, 255, 256, 0x1234_5678, 0x8000_0000, u32::MAX] {
        let bytes = u32_to_le_bytes(x);
        assert_eq!(bytes, x.to_le_bytes().to_vec());
        assert_eq!(u32_from_le_bytes(&bytes), x);
        assert_eq!(i32_from_le_bytes(&bytes), x as i32);
    }
}
