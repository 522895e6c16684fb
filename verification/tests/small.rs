//! Tests of the traits on the small octets vector.

use octseq::builder::{EmptyBuilder, FromBuilder, IntoBuilder, OctetsBuilder};
use octseq::octets::{AsOctets, Octets, OctetsFrom, OctetsInto, Truncate};
use octseq::{Parser, SmallOctets};

#[test]
fn small_octets_from_slice() {
    let octets = SmallOctets::try_octets_from(&b"abcdef"[..]).unwrap();
    assert_eq!(octets.as_slice(), b"abcdef");
    assert_eq!(octets.range(1, 3), b"bc");
    assert_eq!(octets.range(6, 6), b"");
    let long: Vec<u8> = (0..100).collect();
    let octets = SmallOctets::octets_from(long.clone());
    assert_eq!(octets.as_slice(), &long[..]);
    assert_eq!(octets.range(24, 26), &[24, 25]);
    let back: Vec<u8> = octets.octets_into();
    assert_eq!(back, long);
}

#[test]
fn small_octets_as_builder() {
    let mut builder = SmallOctets::empty();
    assert_eq!(builder.as_slice(), b"");
    assert!(builder.is_empty());
    assert_eq!(builder.len(), 0);
    assert_eq!(builder.append_slice(b"abc"), Ok(()));
    assert_eq!(builder.append_slice(b""), Ok(()));
    assert_eq!(builder.as_slice(), b"abc");
    // Grow beyond what is kept in place.
    assert_eq!(builder.append_slice(&[b'x'; 30]), Ok(()));
    assert_eq!(builder.len(), 33);
    assert!(!builder.is_empty());
    assert_eq!(&builder.as_slice()[..4], b"abcx");

    builder.truncate(34);
    assert_eq!(builder.len(), 33);
    builder.truncate(33);
    assert_eq!(builder.len(), 33);
    builder.truncate(2);
    assert_eq!(builder.as_slice(), b"ab");
    builder.truncate(0);
    assert_eq!(builder.as_slice(), b"");

    let mut builder = SmallOctets::with_capacity(100);
    assert_eq!(builder.len(), 0);
    assert_eq!(builder.append_slice(b"xy"), Ok(()));
    let frozen = builder.freeze();
    assert_eq!(frozen.as_slice(), b"xy");
    let builder = frozen.into_builder();
    assert_eq!(SmallOctets::from_builder(builder).as_slice(), b"xy");
}

#[test]
fn parser_atop_small_octets() {
    let octets = SmallOctets::octets_from(&b"\x01\x02\x03"[..]);
    let mut parser = Parser::from_ref(&octets);
    assert_eq!(parser.parse_u8(), Ok(1));
    assert_eq!(parser.parse_octets(2).unwrap(), &[2, 3]);
    assert!(parser.parse_u8().is_err());
}

#[test]
fn small_octets_capacity_beyond_reach() {
    let mut builder = SmallOctets::with_capacity(usize::MAX);
    assert!(builder.is_empty());
    assert_eq!(builder.append_slice(b"ab"), Ok(()));
    assert_eq!(builder.as_slice(), b"ab");
}
