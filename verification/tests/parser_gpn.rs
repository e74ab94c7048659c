use bytes::Bytes;
use cedro::protocol::parser::ParseError;
use cedro::protocol::parser::gpn::parse;
use cedro::protocol::types::{GpnItem, ProtocolMessage};

fn parse_gpn(b: &'static [u8]) -> GpnItem {
    match parse(Bytes::from_static(b)).unwrap() {
        ProtocolMessage::GpnItem(item) => item,
        _ => unreachable!(),
    }
}

#[test]
fn xp_investimentos_fixture() {
    let it = parse_gpn(b"G:BOVESPA:3:XP INVESTIMENTOS:3:1");
    assert_eq!(it.exchange.as_ref(), b"BOVESPA");
    assert_eq!(it.code.as_ref(), b"3");
    assert_eq!(it.name.as_ref(), b"XP INVESTIMENTOS");
    assert_eq!(it.cedro_id.as_ref(), b"3");
    assert!(it.active);
}

#[test]
fn bradesco_fixture() {
    let it = parse_gpn(b"G:BOVESPA:72:BRADESCO S/A CTVM:72:1");
    assert_eq!(it.code.as_ref(), b"72");
    assert_eq!(it.name.as_ref(), b"BRADESCO S/A CTVM");
    assert!(it.active);
}

#[test]
fn inactive_broker() {
    let it = parse_gpn(b"G:BOVESPA:999:OLD BROKER:999:0");
    assert!(!it.active);
}

#[test]
fn rejects_garbage_active_flag() {
    let err = parse(Bytes::from_static(b"G:BOVESPA:1:X:1:maybe")).unwrap_err();
    assert!(matches!(err, ParseError::InvalidField { .. }));
}
