use echo_bench::codec::encode;
use echo_bench::codec::verify;

#[test]
fn test_encode_tiles_le_pattern() {
    // 258 = 0x0102: little-endian bytes [2, 1, 0, 0], tiled.
    assert_eq!(encode(258, 6), vec![2u8, 1, 0, 0, 2, 1]);
    assert_eq!(encode(1, 4), vec![1u8, 0, 0, 0]);
    assert_eq!(encode(0, 5), vec![0u8, 0, 0, 0, 0]);
    // 4294967295 = 0xffffffff.
    assert_eq!(encode(4294967295, 4), vec![255u8, 255, 255, 255]);
    // 16909060 = 0x01020304: little-endian bytes [4, 3, 2, 1].
    assert_eq!(encode(16909060, 8), vec![4u8, 3, 2, 1, 4, 3, 2, 1]);
}

#[test]
fn test_encode_truncates_short_buffers() {
    assert_eq!(encode(258, 3), vec![2u8, 1, 0]);
    assert_eq!(encode(258, 2), vec![2u8, 1]);
    assert_eq!(encode(258, 1), vec![2u8]);
    assert_eq!(encode(258, 0), Vec::<u8>::new());
}

#[test]
fn test_verify_round_trip() {
    for &(index, length) in
        [(0u32, 0usize), (0, 1), (1, 4), (258, 3), (258, 1024), (4294967295, 7), (64, 1)].iter()
    {
        let buf = encode(index, length);
        assert!(verify(&buf, index));
    }
}

#[test]
fn test_verify_rejects_corruption() {
    let mut buf = encode(258, 8);
    buf[5] ^= 0x40;
    assert!(!verify(&buf, 258));
}

#[test]
fn test_verify_rejects_wrong_index() {
    let buf = encode(1, 16);
    assert!(!verify(&buf, 2));
}

#[test]
fn test_verify_short_buffer_compares_low_bytes_only() {
    // A one-byte payload for index 258 holds only the low pattern byte.
    let buf = encode(258, 1);
    assert!(verify(&buf, 258));
    // 514 = 0x0202 has the same low byte as 258 = 0x0102, so a one-byte
    // payload cannot tell them apart; 259 = 0x0103 differs in the low byte.
    assert!(verify(&buf, 514));
    assert!(!verify(&buf, 259));
}
