//! Tests of the fixed-capacity octets sequence.

use octseq::builder::{EmptyBuilder, FromBuilder, IntoBuilder, OctetsBuilder, ShortBuf};
use octseq::octets::{AsOctets, Octets, OctetsFrom, OctetsInto, Truncate};
use octseq::Array;
use std::cmp::Ordering;

#[test]
fn new_is_empty() {
    let array = Array::<4>::new();
    assert_eq!(array.as_slice(), b"");
    assert_eq!(array.len(), 0);
    assert_eq!(Array::<4>::default().as_slice(), b"");
    assert_eq!(Array::<0>::new().as_slice(), b"");
    assert_eq!(<Array<4> as EmptyBuilder>::empty().as_slice(), b"");
    assert_eq!(<Array<4> as EmptyBuilder>::with_capacity(100).as_slice(), b"");
}

#[test]
fn try_from_slice() {
    let array = Array::<4>::try_from(b"abc").unwrap();
    assert_eq!(array.as_slice(), b"abc");
    assert_eq!(array.len(), 3);
    let array = Array::<4>::try_from(b"abcd").unwrap();
    assert_eq!(array.as_slice(), b"abcd");
    let array = Array::<4>::try_from(b"").unwrap();
    assert_eq!(array.as_slice(), b"");
    assert_eq!(Array::<4>::try_from(b"abcde").err(), Some(ShortBuf));
    assert_eq!(Array::<0>::try_from(b"a").err(), Some(ShortBuf));
    assert!(Array::<0>::try_from(b"").is_ok());
}

#[test]
fn slice_mut_writes_through() {
    let mut array = Array::<4>::try_from(b"abc").unwrap();
    {
        let slice = array.as_slice_mut();
        assert_eq!(slice, b"abc");
        slice[1] = b'x';
    }
    assert_eq!(array.as_slice(), b"axc");
    assert_eq!(array.len(), 3);
}

#[test]
fn resize_raw_keeps_octets() {
    let mut array = Array::<4>::try_from(b"abcd").unwrap();
    assert_eq!(array.resize_raw(2), Ok(()));
    assert_eq!(array.as_slice(), b"ab");
    assert_eq!(array.resize_raw(4), Ok(()));
    assert_eq!(array.as_slice(), b"abcd");
    assert_eq!(array.resize_raw(5), Err(ShortBuf));
    assert_eq!(array.as_slice(), b"abcd");
    assert_eq!(array.resize_raw(0), Ok(()));
    assert_eq!(array.as_slice(), b"");
}

#[test]
fn append_until_full() {
    let mut array = Array::<4>::new();
    assert_eq!(array.append_slice(b"ab"), Ok(()));
    assert_eq!(array.as_slice(), b"ab");
    assert_eq!(array.append_slice(b""), Ok(()));
    assert_eq!(array.append_slice(b"cde"), Err(ShortBuf));
    assert_eq!(array.as_slice(), b"ab");
    assert_eq!(array.append_slice(b"cd"), Ok(()));
    assert_eq!(array.as_slice(), b"abcd");
    assert_eq!(array.append_slice(b"e"), Err(ShortBuf));
    assert_eq!(array.append_slice(b""), Ok(()));
    assert_eq!(array.as_slice(), b"abcd");
    assert_eq!(OctetsBuilder::len(&array), 4);
    assert!(!OctetsBuilder::is_empty(&array));
    assert!(OctetsBuilder::is_empty(&Array::<4>::new()));
    assert_eq!(array.freeze().as_slice(), b"abcd");
}

#[test]
fn truncate_and_range() {
    let mut array = Array::<8>::try_from(b"abcdef").unwrap();
    assert_eq!(array.range(1, 4), b"bcd");
    assert_eq!(array.range(0, 6), b"abcdef");
    assert_eq!(array.range(6, 6), b"");
    array.truncate(7);
    assert_eq!(array.as_slice(), b"abcdef");
    array.truncate(6);
    assert_eq!(array.as_slice(), b"abcdef");
    array.truncate(2);
    assert_eq!(array.as_slice(), b"ab");
    array.truncate(0);
    assert_eq!(array.as_slice(), b"");
    assert_eq!(AsOctets::as_slice(&array), b"");
}

#[test]
fn array_conversions() {
    let array = Array::<4>::try_octets_from(vec![1u8, 2, 3]).unwrap();
    assert_eq!(array.as_slice(), &[1, 2, 3]);
    assert!(Array::<2>::try_octets_from(vec![1u8, 2, 3]).is_err());
    let array = Array::<4>::try_octets_from(&b"ab"[..]).unwrap();
    assert_eq!(array.as_slice(), b"ab");
    let array: Array<4> = vec![7u8, 8].try_octets_into().unwrap();
    assert_eq!(array.as_slice(), &[7, 8]);
    let vec: Vec<u8> = array.clone().octets_into();
    assert_eq!(vec, [7, 8]);
    let builder = array.clone().into_builder();
    assert_eq!(builder.as_slice(), &[7, 8]);
    assert_eq!(Array::<4>::from_builder(builder).as_slice(), &[7, 8]);
    assert_eq!(array.clone().as_slice(), array.as_slice());
}

#[test]
fn arrays_equal_by_content() {
    let mut left = Array::<4>::try_from(b"abcd").unwrap();
    left.truncate(2);
    let right = Array::<4>::try_from(b"ab").unwrap();
    assert!(left == right);
    assert!(left == b"ab"[..]);
    assert!(left == vec![b'a', b'b']);
    assert!(left != Array::<8>::try_from(b"abc").unwrap());
    assert!(left != Array::<4>::try_from(b"ac").unwrap());
    assert!(left != Array::<4>::new());
    assert!(Array::<4>::new() == Array::<4>::new());
    assert!(Array::<4>::new() == b""[..]);
}

#[test]
fn arrays_ordered_by_content() {
    let ab = Array::<4>::try_from(b"ab").unwrap();
    let abc = Array::<4>::try_from(b"abc").unwrap();
    let b = Array::<4>::try_from(b"b").unwrap();
    let empty = Array::<4>::new();

    assert_eq!(ab.partial_cmp(&ab), Some(Ordering::Equal));
    assert_eq!(ab.partial_cmp(&abc), Some(Ordering::Less));
    assert_eq!(abc.partial_cmp(&ab), Some(Ordering::Greater));
    assert_eq!(abc.partial_cmp(&b), Some(Ordering::Less));
    assert_eq!(b.partial_cmp(&abc), Some(Ordering::Greater));
    assert_eq!(empty.partial_cmp(&empty), Some(Ordering::Equal));
    assert_eq!(empty.partial_cmp(&ab), Some(Ordering::Less));
    assert_eq!(ab.partial_cmp(&empty), Some(Ordering::Greater));
    assert!(ab < abc);
    assert!(abc < b);
    assert!(ab <= ab);
    assert!(b > abc);
    assert!(ab < b"b"[..]);
    assert!(ab >= vec![b'a']);
    assert_eq!(ab.partial_cmp(&b"ab"[..]), b"ab"[..].partial_cmp(&b"ab"[..]));
    assert_eq!(ab.partial_cmp(&b"a\xff"[..]), b"ab"[..].partial_cmp(&b"a\xff"[..]));
}

#[test]
fn new_arrays_hold_zeros() {
    let mut array = Array::<4>::new();
    assert_eq!(array.resize_raw(3), Ok(()));
    assert_eq!(array.as_slice(), &[0, 0, 0]);
    let mut array = Array::<4>::try_from(b"ab").unwrap();
    assert_eq!(array.resize_raw(4), Ok(()));
    assert_eq!(array.as_slice(), b"ab\0\0");
    let mut array = Array::<4>::default();
    assert_eq!(array.resize_raw(4), Ok(()));
    assert_eq!(array.as_slice(), &[0; 4]);
    // Octets that were cut off come back.
    let mut array = Array::<4>::try_from(b"abcd").unwrap();
    array.truncate(1);
    assert_eq!(array.append_slice(b"x"), Ok(()));
    assert_eq!(array.resize_raw(4), Ok(()));
    assert_eq!(array.as_slice(), b"axcd");
}
