//! Tests of the traits on octets that share their buffer.

use bytes::{Bytes, BytesMut};
use octseq::builder::{EmptyBuilder, FromBuilder, IntoBuilder, OctetsBuilder};
use octseq::octets::{AsOctets, Octets, OctetsFrom, OctetsInto, Truncate};
use octseq::Parser;

#[test]
fn bytes_as_octets() {
    let bytes = Bytes::from_static(b"abcdef");
    assert_eq!(AsOctets::as_slice(&bytes), b"abcdef");
    let range: Bytes = Octets::range(&bytes, 2, 5);
    assert_eq!(range.as_ref(), b"cde");
    assert_eq!(Octets::range(&bytes, 0, 6).as_ref(), b"abcdef");
    assert_eq!(Octets::range(&bytes, 6, 6).as_ref(), b"");
    assert_eq!(Octets::range(&range, 1, 2).as_ref(), b"d");
    assert_eq!(Octets::range(&&bytes, 0, 1).as_ref(), b"a");
}

#[test]
fn bytes_truncate() {
    let mut bytes = Bytes::from_static(b"abcdef");
    Truncate::truncate(&mut bytes, 7);
    assert_eq!(bytes.as_ref(), b"abcdef");
    Truncate::truncate(&mut bytes, 6);
    assert_eq!(bytes.as_ref(), b"abcdef");
    Truncate::truncate(&mut bytes, 2);
    assert_eq!(bytes.as_ref(), b"ab");
    let mut bytes = Bytes::from(vec![1u8, 2, 3]);
    Truncate::truncate(&mut bytes, 1);
    assert_eq!(bytes.as_ref(), &[1]);
    Truncate::truncate(&mut bytes, 0);
    assert_eq!(bytes.as_ref(), b"");
}

#[test]
fn bytes_conversions() {
    let bytes = Bytes::try_octets_from(vec![1u8, 2, 3]).unwrap();
    assert_eq!(bytes.as_ref(), &[1, 2, 3]);
    let bytes = Bytes::octets_from(&b"abc"[..]);
    assert_eq!(bytes.as_ref(), b"abc");
    let vec: Vec<u8> = bytes.clone().octets_into();
    assert_eq!(vec, b"abc");

    let mut builder: BytesMut = bytes.clone().into_builder();
    assert_eq!(builder.as_ref(), b"abc");
    assert_eq!(builder.append_slice(b"de"), Ok(()));
    assert_eq!(bytes.as_ref(), b"abc");
    let frozen = Bytes::from_builder(builder);
    assert_eq!(frozen.as_ref(), b"abcde");
}

#[test]
fn bytes_mut_as_builder() {
    let mut builder = <BytesMut as EmptyBuilder>::empty();
    assert_eq!(AsOctets::as_slice(&builder), b"");
    assert!(OctetsBuilder::is_empty(&builder));
    assert_eq!(OctetsBuilder::len(&builder), 0);
    assert_eq!(builder.append_slice(b"abc"), Ok(()));
    assert_eq!(builder.append_slice(b""), Ok(()));
    assert_eq!(builder.append_slice(b"def"), Ok(()));
    assert_eq!(AsOctets::as_slice(&builder), b"abcdef");
    assert_eq!(OctetsBuilder::len(&builder), 6);
    assert!(!OctetsBuilder::is_empty(&builder));

    Truncate::truncate(&mut builder, 7);
    assert_eq!(builder.as_ref(), b"abcdef");
    Truncate::truncate(&mut builder, 6);
    assert_eq!(builder.as_ref(), b"abcdef");
    Truncate::truncate(&mut builder, 4);
    assert_eq!(builder.as_ref(), b"abcd");
    let frozen: Bytes = OctetsBuilder::freeze(builder);
    assert_eq!(frozen.as_ref(), b"abcd");

    let mut builder = <BytesMut as EmptyBuilder>::with_capacity(64);
    assert_eq!(OctetsBuilder::len(&builder), 0);
    assert_eq!(builder.append_slice(b"x"), Ok(()));
    assert_eq!(builder.as_ref(), b"x");

    let builder = BytesMut::try_octets_from(&b"xyz"[..]).unwrap();
    assert_eq!(builder.as_ref(), b"xyz");
}

#[test]
fn parser_atop_bytes() {
    let bytes = Bytes::from_static(b"\x00\x03abcdef");
    let range = {
        let mut parser = Parser::from_ref(&bytes);
        let len = parser.parse_u16_be().unwrap();
        let range: Bytes = parser.parse_octets(len as usize).unwrap();
        assert_eq!(parser.peek_all(), b"def");
        assert!(parser.parse_octets(4).is_err());
        assert_eq!(parser.pos(), 5);
        range
    };
    drop(bytes);
    assert_eq!(range.as_ref(), b"abc");
}

#[test]
fn bytes_mut_capacity_beyond_reach() {
    let mut builder = <BytesMut as EmptyBuilder>::with_capacity(usize::MAX);
    assert!(OctetsBuilder::is_empty(&builder));
    assert_eq!(builder.append_slice(b"ab"), Ok(()));
    assert_eq!(builder.as_ref(), b"ab");
}
