use bytes::Bytes;
use cedro::protocol::parser::error::parse;
use cedro::protocol::types::{CedroError, ProtocolMessage};

fn parse_error(bytes: &'static [u8]) -> CedroError {
    match parse(Bytes::from_static(bytes)).unwrap() {
        ProtocolMessage::Error(e) => e,
        _ => unreachable!(),
    }
}

#[test]
fn invalid_command() {
    let e = parse_error(b"E:1:SQT");
    assert_eq!(e.code, 1);
    assert_eq!(e.context.len(), 1);
    assert_eq!(e.context[0].as_ref(), b"SQT");
    assert!(e.is_client_bug());
    assert!(!e.is_transient_server());
}

#[test]
fn server_migration() {
    let e = parse_error(b"E:12:new-host.example.com");
    assert_eq!(e.code, 12);
    assert!(e.is_migration());
    assert_eq!(e.context[0].as_ref(), b"new-host.example.com");
}

#[test]
fn forced_disconnect_is_flagged() {
    for code in [6_u16, 7, 8, 9] {
        let frame = format!("E:{code}");
        let bytes = Bytes::from(frame.into_bytes());
        let msg = parse(bytes).unwrap();
        match msg {
            ProtocolMessage::Error(e) => assert!(e.is_forced_disconnect()),
            _ => unreachable!(),
        }
    }
}

#[test]
fn no_permission_for_specific_quote() {
    let e = parse_error(b"E:19:No permission in quote:PETR4");
    assert_eq!(e.code, 19);
    assert_eq!(e.context.len(), 2);
    assert_eq!(e.context[0].as_ref(), b"No permission in quote");
    assert_eq!(e.context[1].as_ref(), b"PETR4");
}
