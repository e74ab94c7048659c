use bytes::Bytes;
use cedro::decimal::Decimal;
use cedro::protocol::parser::scanner::{parse_decimal, parse_i64, parse_u64, Scanner};
use cedro::protocol::parser::ParseError;

/// The value of a number's text.
fn num(d: &Decimal) -> f64 {
    d.as_str().parse().unwrap()
}

fn decimal(b: &'static [u8]) -> Result<Decimal, ParseError> {
    parse_decimal(&Bytes::from_static(b), "x")
}

#[test]
fn yields_tokens_until_exhausted() {
    let mut s = Scanner::new(Bytes::from_static(b"a:bb:ccc"));
    assert_eq!(s.next().unwrap().as_ref(), b"a");
    assert_eq!(s.next().unwrap().as_ref(), b"bb");
    assert_eq!(s.next().unwrap().as_ref(), b"ccc");
    assert!(s.next().is_none());
}

#[test]
fn empty_trailing_field_is_emitted() {
    let mut s = Scanner::new(Bytes::from_static(b"a:b:"));
    assert_eq!(s.next().unwrap().as_ref(), b"a");
    assert_eq!(s.next().unwrap().as_ref(), b"b");
    // A trailing colon gives one final empty token.
    assert_eq!(s.next().unwrap().as_ref(), b"");
    assert!(s.next().is_none());
}

#[test]
fn rest_returns_unconsumed_tail() {
    let mut s = Scanner::new(Bytes::from_static(b"a:b:title:with:colons"));
    let _ = s.next();
    let _ = s.next();
    assert_eq!(s.rest().as_ref(), b"title:with:colons");
}

#[test]
fn integer_parsing_rejects_garbage() {
    assert!(parse_u64(b"123", "x").is_ok());
    assert!(parse_u64(b"-1", "x").is_err());
    assert!(parse_u64(b"abc", "x").is_err());
    assert!(parse_u64(b"", "x").is_err());
    assert!(parse_i64(b"-42", "x").is_ok());
    assert!(parse_i64(b"-", "x").is_err());
}

#[test]
fn float_parsing_accepts_cedro_format() {
    assert!((num(&decimal(b"59.95").unwrap()) - 59.95).abs() < 1e-9);
    assert!((num(&decimal(b"-1.5").unwrap()) + 1.5).abs() < 1e-9);
    assert!(decimal(b"abc").is_err());
}
