use rustevm::word::U256;

#[test]
fn a_u64_lands_in_the_low_eight_bytes_big_endian() {
    let w = U256::from_u64(0x0102_0304_0506_0708);
    let bytes = w.to_be_bytes();
    assert_eq!(&bytes[..24], &[0u8; 24]);
    assert_eq!(&bytes[24..], &[1, 2, 3, 4, 5, 6, 7, 8]);
}

#[test]
fn bytes_round_trip() {
    let mut b = [0u8; 32];
    b[0] = 0x80;
    b[31] = 0x01;
    assert_eq!(U256::from_be_bytes(b).to_be_bytes(), b);
    assert!(U256::from_be_bytes(b) == U256::from_be_bytes(b));
}

#[test]
fn zero_is_all_zero_bytes() {
    assert_eq!(U256::zero().to_be_bytes(), [0u8; 32]);
    assert!(U256::zero() == U256::from_u64(0));
    assert!(U256::from_u64(u64::MAX).to_be_bytes()[24..].iter().all(|b| *b == 0xff));
}
