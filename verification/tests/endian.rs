//! Tests of reading numbers from octets.

use octseq::endian::{be_u128, le_u128};

#[test]
fn big_endian_values() {
    assert_eq!(be_u128(&[]), 0);
    assert_eq!(be_u128(&[0x12]), 0x12);
    assert_eq!(be_u128(&[0x12, 0x34]), 0x1234);
    assert_eq!(be_u128(&[0, 0, 1]), 1);
    assert_eq!(be_u128(&[1, 0, 0]), 0x10000);
    assert_eq!(be_u128(&[0xff; 16]), u128::MAX);
    let value = 0x0102_0304_0506_0708_090a_0b0c_0d0e_0f10u128;
    assert_eq!(be_u128(&value.to_be_bytes()), value);
}

#[test]
fn little_endian_values() {
    assert_eq!(le_u128(&[]), 0);
    assert_eq!(le_u128(&[0x12]), 0x12);
    assert_eq!(le_u128(&[0x12, 0x34]), 0x3412);
    assert_eq!(le_u128(&[0, 0, 1]), 0x10000);
    assert_eq!(le_u128(&[1, 0, 0]), 1);
    assert_eq!(le_u128(&[0xff; 16]), u128::MAX);
    let value = 0x0102_0304_0506_0708_090a_0b0c_0d0e_0f10u128;
    assert_eq!(le_u128(&value.to_le_bytes()), value);
}
