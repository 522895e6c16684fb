//! Tests of the parser on fixed inputs.

use octseq::Parser;

#[test]
fn pos_seek_remaining() {
    let mut parser = Parser::from_static(b"0123456789");
    assert_eq!(parser.peek(1).unwrap(), b"0");
    assert_eq!(parser.pos(), 0);
    assert_eq!(parser.remaining(), 10);
    assert_eq!(parser.seek(2), Ok(()));
    assert_eq!(parser.pos(), 2);
    assert_eq!(parser.remaining(), 8);
    assert_eq!(parser.peek(1).unwrap(), b"2");
    assert_eq!(parser.seek(10), Ok(()));
    assert_eq!(parser.pos(), 10);
    assert_eq!(parser.remaining(), 0);
    assert_eq!(parser.peek_all(), b"");
    assert!(parser.seek(11).is_err());
    assert_eq!(parser.pos(), 10);
    assert_eq!(parser.remaining(), 0);
}

#[test]
fn peek_check_len() {
    let mut parser = Parser::from_static(b"0123456789");
    assert_eq!(parser.peek(2), Ok(b"01".as_ref()));
    assert_eq!(parser.check_len(2), Ok(()));
    assert_eq!(parser.peek(10), Ok(b"0123456789".as_ref()));
    assert_eq!(parser.check_len(10), Ok(()));
    assert!(parser.peek(11).is_err());
    assert!(parser.check_len(11).is_err());
    parser.advance(2).unwrap();
    assert_eq!(parser.peek(2), Ok(b"23".as_ref()));
    assert_eq!(parser.check_len(2), Ok(()));
    assert_eq!(parser.peek(8), Ok(b"23456789".as_ref()));
    assert_eq!(parser.check_len(8), Ok(()));
    assert!(parser.peek(9).is_err());
    assert!(parser.check_len(9).is_err());
}

#[test]
fn peek_all() {
    let mut parser = Parser::from_static(b"0123456789");
    assert_eq!(parser.peek_all(), b"0123456789");
    parser.advance(2).unwrap();
    assert_eq!(parser.peek_all(), b"23456789");
}

#[test]
fn advance() {
    let mut parser = Parser::from_static(b"0123456789");
    assert_eq!(parser.pos(), 0);
    assert_eq!(parser.peek(1).unwrap(), b"0");
    assert_eq!(parser.advance(2), Ok(()));
    assert_eq!(parser.pos(), 2);
    assert_eq!(parser.peek(1).unwrap(), b"2");
    assert!(parser.advance(9).is_err());
    assert_eq!(parser.advance(8), Ok(()));
    assert_eq!(parser.pos(), 10);
    assert_eq!(parser.peek_all(), b"");
}

#[test]
fn parse_octets() {
    let mut parser = Parser::from_static(b"0123456789");
    assert_eq!(parser.parse_octets(2).unwrap(), b"01");
    assert_eq!(parser.parse_octets(2).unwrap(), b"23");
    assert!(parser.parse_octets(7).is_err());
    assert_eq!(parser.parse_octets(6).unwrap(), b"456789");
}

#[test]
fn parse_buf() {
    let mut parser = Parser::from_static(b"0123456789");
    let mut buf = [0u8; 2];
    assert_eq!(parser.parse_buf(&mut buf), Ok(()));
    assert_eq!(&buf, b"01");
    assert_eq!(parser.parse_buf(&mut buf), Ok(()));
    assert_eq!(&buf, b"23");
    let mut buf = [0u8; 7];
    assert!(parser.parse_buf(&mut buf).is_err());
    let mut buf = [0u8; 6];
    assert_eq!(parser.parse_buf(&mut buf), Ok(()));
    assert_eq!(&buf, b"456789");
}

#[test]
fn parse_i8() {
    let mut parser = Parser::from_static(b"\x12\xd6");
    assert_eq!(parser.parse_i8(), Ok(0x12_i8));
    assert_eq!(parser.parse_i8(), Ok(-42_i8));
    assert!(parser.parse_i8().is_err());
}

#[test]
fn parse_u8() {
    let mut parser = Parser::from_static(b"\x12\xd6");
    assert_eq!(parser.parse_u8(), Ok(0x12_u8));
    assert_eq!(parser.parse_u8(), Ok(0xd6_u8));
    assert!(parser.parse_u8().is_err());
}

#[test]
fn parse_i16_be() {
    let mut parser = Parser::from_static(b"\x12\x34\xef\x6e\0");
    assert_eq!(parser.parse_i16_be(), Ok(0x1234_i16));
    assert_eq!(parser.parse_i16_be(), Ok(-4242_i16));
    assert!(parser.parse_i16_be().is_err());
}

#[test]
fn parse_i16_le() {
    let mut parser = Parser::from_static(b"\x34\x12\x6e\xef\0");
    assert_eq!(parser.parse_i16_le(), Ok(0x1234_i16));
    assert_eq!(parser.parse_i16_le(), Ok(-4242_i16));
    assert!(parser.parse_i16_le().is_err());
}

#[test]
fn parse_u16_be() {
    let mut parser = Parser::from_static(b"\x12\x34\xef\x6e\0");
    assert_eq!(parser.parse_u16_be(), Ok(0x1234_u16));
    assert_eq!(parser.parse_u16_be(), Ok(0xef6e_u16));
    assert!(parser.parse_u16_be().is_err());
}

#[test]
fn parse_u16_le() {
    let mut parser = Parser::from_static(b"\x34\x12\x6e\xef\0");
    assert_eq!(parser.parse_u16_le(), Ok(0x1234_u16));
    assert_eq!(parser.parse_u16_le(), Ok(0xef6e_u16));
    assert!(parser.parse_u16_le().is_err());
}

#[test]
fn parse_i32_be() {
    let mut parser =
        Parser::from_static(b"\x12\x34\x56\x78\xfd\x78\xa8\x4e\0\0\0");
    assert_eq!(parser.parse_i32_be(), Ok(0x12345678_i32));
    assert_eq!(parser.parse_i32_be(), Ok(-42424242_i32));
    assert!(parser.parse_i32_be().is_err());
}

#[test]
fn parse_i32_le() {
    let mut parser =
        Parser::from_static(b"\x78\x56\x34\x12\x4e\xa8\x78\xfd\0\0\0");
    assert_eq!(parser.parse_i32_le(), Ok(0x12345678_i32));
    assert_eq!(parser.parse_i32_le(), Ok(-42424242_i32));
    assert!(parser.parse_i32_le().is_err());
}

#[test]
fn parse_u32_be() {
    let mut parser =
        Parser::from_static(b"\x12\x34\x56\x78\xfd\x78\xa8\x4e\0\0\0");
    assert_eq!(parser.parse_u32_be(), Ok(0x12345678_u32));
    assert_eq!(parser.parse_u32_be(), Ok(0xfd78a84e_u32));
    assert!(parser.parse_u32_be().is_err());
}

#[test]
fn parse_u32_le() {
    let mut parser =
        Parser::from_static(b"\x78\x56\x34\x12\x4e\xa8\x78\xfd\0\0\0");
    assert_eq!(parser.parse_u32_le(), Ok(0x12345678_u32));
    assert_eq!(parser.parse_u32_le(), Ok(0xfd78a84e_u32));
    assert!(parser.parse_u32_le().is_err());
}

#[test]
fn parse_i64_be() {
    let mut parser = Parser::from_static(
        b"\x12\x34\x56\x78\xfd\x78\xa8\x4e\
          \xce\x7a\xba\x26\xdd\x0f\x29\x99\
          \0\0\0"
    );
    assert_eq!(parser.parse_i64_be(), Ok(0x12345678fd78a84e_i64));
    assert_eq!(parser.parse_i64_be(), Ok(-3568335078657414759_i64));
    assert!(parser.parse_i64_be().is_err());
}

#[test]
fn parse_i64_le() {
    let mut parser = Parser::from_static(
        b"\x4e\xa8\x78\xfd\x78\x56\x34\x12\
          \x99\x29\x0f\xdd\x26\xba\x7a\xce\
          \0\0\0"
    );
    assert_eq!(parser.parse_i64_le(), Ok(0x12345678fd78a84e_i64));
    assert_eq!(parser.parse_i64_le(), Ok(-3568335078657414759_i64));
    assert!(parser.parse_i64_le().is_err());
}

#[test]
fn parse_u64_be() {
    let mut parser = Parser::from_static(
        b"\x12\x34\x56\x78\xfd\x78\xa8\x4e\
          \xce\x7a\xba\x26\xdd\x0f\x29\x99\
          \0\0\0"
    );
    assert_eq!(parser.parse_u64_be(), Ok(0x12345678fd78a84e_u64));
    assert_eq!(parser.parse_u64_be(), Ok(0xce7aba26dd0f2999_u64));
    assert!(parser.parse_u64_be().is_err());
}

#[test]
fn parse_u64_le() {
    let mut parser = Parser::from_static(
        b"\x4e\xa8\x78\xfd\x78\x56\x34\x12\
          \x99\x29\x0f\xdd\x26\xba\x7a\xce\
          \0\0\0"
    );
    assert_eq!(parser.parse_u64_le(), Ok(0x12345678fd78a84e_u64));
    assert_eq!(parser.parse_u64_le(), Ok(0xce7aba26dd0f2999_u64));
    assert!(parser.parse_u64_le().is_err());
}

#[test]
fn parse_i128_be() {
    let mut parser = Parser::from_static(
        b"\x12\x34\x56\x78\xfd\x78\xa8\x4e\
          \xce\x7a\xba\x26\xdd\x0f\x29\x99\
          \xf8\xc6\x0e\x5d\x3f\x5e\x3a\x74\
          \x38\x38\x8f\x3f\x57\xa7\x94\xa0\
          \0\0\0\0\0"
    );
    assert_eq!(parser.parse_i128_be(),
        Ok(0x12345678fd78a84ece7aba26dd0f2999_i128)
    );
    assert_eq!(parser.parse_i128_be(),
        Ok(-9605457846724395475894107919101750112_i128)
    );
    assert!(parser.parse_i128_be().is_err());
}

#[test]
fn parse_i128_le() {
    let mut parser = Parser::from_static(
        b"\x99\x29\x0f\xdd\x26\xba\x7a\xce\
          \x4e\xa8\x78\xfd\x78\x56\x34\x12\
          \xa0\x94\xa7\x57\x3f\x8f\x38\x38\
          \x74\x3a\x5e\x3f\x5d\x0e\xc6\xf8\
          \0\0\0\0\0"
    );
    assert_eq!(parser.parse_i128_le(),
        Ok(0x12345678fd78a84ece7aba26dd0f2999_i128)
    );
    assert_eq!(parser.parse_i128_le(),
        Ok(-9605457846724395475894107919101750112_i128)
    );
    assert!(parser.parse_i128_le().is_err());
}

#[test]
fn parse_u128_be() {
    let mut parser = Parser::from_static(
        b"\x12\x34\x56\x78\xfd\x78\xa8\x4e\
          \xce\x7a\xba\x26\xdd\x0f\x29\x99\
          \xf8\xc6\x0e\x5d\x3f\x5e\x3a\x74\
          \x38\x38\x8f\x3f\x57\xa7\x94\xa0\
          \0\0\0\0\0"
    );
    assert_eq!(parser.parse_u128_be(),
        Ok(0x12345678fd78a84ece7aba26dd0f2999_u128)
    );
    assert_eq!(parser.parse_u128_be(),
        Ok(0xf8c60e5d3f5e3a7438388f3f57a794a0_u128)
    );
    assert!(parser.parse_u128_be().is_err());
}

#[test]
fn parse_u128_le() {
    let mut parser = Parser::from_static(
        b"\x99\x29\x0f\xdd\x26\xba\x7a\xce\
          \x4e\xa8\x78\xfd\x78\x56\x34\x12\
          \xa0\x94\xa7\x57\x3f\x8f\x38\x38\
          \x74\x3a\x5e\x3f\x5d\x0e\xc6\xf8\
          \0\0\0\0\0"
    );
    assert_eq!(parser.parse_u128_le(),
        Ok(0x12345678fd78a84ece7aba26dd0f2999_u128)
    );
    assert_eq!(parser.parse_u128_le(),
        Ok(0xf8c60e5d3f5e3a7438388f3f57a794a0_u128)
    );
    assert!(parser.parse_u128_le().is_err());
}
