use hii_database::wire::{
    bytes_equal, push_all, push_u16, push_u32, read_u16, read_u24, read_u32,
};

#[test]
fn integers_are_read_least_significant_byte_first() {
    let buf: [u8; 6] = [0x78, 0x56, 0x34, 0x12, 0xCD, 0xAB];
    assert_eq!(read_u16(&buf, 0), 0x5678);
    assert_eq!(read_u16(&buf, 4), 0xABCD);
    assert_eq!(read_u24(&buf, 0), 0x345678);
    assert_eq!(read_u24(&buf, 3), 0xABCD12);
    assert_eq!(read_u32(&buf, 0), 0x12345678);
    assert_eq!(read_u32(&buf, 2), 0xABCD1234);
}

#[test]
fn integers_are_written_least_significant_byte_first() {
    let mut out: Vec<u8> = vec![0xEE];
    push_u16(&mut out, 0xABCD);
    push_u32(&mut out, 0x12345678);
    assert_eq!(out, vec![0xEE, 0xCD, 0xAB, 0x78, 0x56, 0x34, 0x12]);
}

#[test]
fn written_integers_are_read_back() {
    for v in [0u32, 1, 0xFF, 0x100, 0xFFFF, 0x10000, 0xFF_FFFF, 0x100_0000, u32::MAX] {
        let mut out: Vec<u8> = Vec::new();
        push_u32(&mut out, v);
        assert_eq!(read_u32(&out, 0), v);
    }
    for v in [0u16, 1, 0xFF, 0x100, 0x1234, u16::MAX] {
        let mut out: Vec<u8> = Vec::new();
        push_u16(&mut out, v);
        assert_eq!(read_u16(&out, 0), v);
    }
}

#[test]
fn bytes_are_appended_in_order() {
    let mut out: Vec<u8> = vec![1, 2];
    push_all(&mut out, &[3, 4, 5]);
    push_all(&mut out, &[]);
    assert_eq!(out, vec![1, 2, 3, 4, 5]);
}

#[test]
fn slices_are_compared_byte_for_byte() {
    assert!(bytes_equal(&[], &[]));
    assert!(bytes_equal(&[1, 2, 3], &[1, 2, 3]));
    assert!(!bytes_equal(&[1, 2, 3], &[1, 2]));
    assert!(!bytes_equal(&[1, 2], &[1, 2, 3]));
    assert!(!bytes_equal(&[1, 2, 3], &[1, 2, 4]));
    assert!(!bytes_equal(&[0, 2, 3], &[1, 2, 3]));
}
