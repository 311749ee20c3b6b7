use ffxiv_pack::binary::{
    read_u16_be, read_u16_le, read_u32_be, read_u32_le, read_u64_be, read_u64_le,
};

#[test]
fn test_little_endian_reads() {
    let b = [0x78u8, 0x56, 0x34, 0x12, 0xEF, 0xCD, 0xAB, 0x89];
    assert_eq!(read_u16_le(&b, 0), 0x5678);
    assert_eq!(read_u32_le(&b, 0), 0x12345678);
    assert_eq!(read_u64_le(&b, 0), 0x89ABCDEF12345678);
    assert_eq!(read_u32_le(&b, 2), 0xCDEF1234);
}

#[test]
fn test_big_endian_reads() {
    let b = [0x12u8, 0x34, 0x56, 0x78, 0x9A, 0xBC, 0xDE, 0xF0];
    assert_eq!(read_u16_be(&b, 0), 0x1234);
    assert_eq!(read_u32_be(&b, 0), 0x12345678);
    assert_eq!(read_u64_be(&b, 0), 0x123456789ABCDEF0);
    assert_eq!(read_u16_be(&b, 3), 0x789A);
}

#[test]
fn test_zero_bytes_read_zero_at_every_width() {
    let b = [0u8; 8];
    assert_eq!(read_u16_be(&b, 0), 0);
    assert_eq!(read_u32_be(&b, 0), 0);
    assert_eq!(read_u64_be(&b, 0), 0);
    assert_eq!(read_u16_le(&b, 0), 0);
    assert_eq!(read_u32_le(&b, 0), 0);
    assert_eq!(read_u64_le(&b, 0), 0);
}
