use bytes::Bytes;
use cedro::protocol::frame::FrameKind;
use cedro::protocol::parser::{parse_frame, ParseError};
use cedro::protocol::types::ProtocolMessage;

#[test]
fn empty_frame_is_rejected() {
    let err = parse_frame(FrameKind::Newline, Bytes::new()).unwrap_err();
    assert_eq!(err, ParseError::Empty);
}

#[test]
fn unknown_header_is_surfaced() {
    let bytes = Bytes::from_static(b"X:weird");
    let err = parse_frame(FrameKind::Newline, bytes).unwrap_err();
    assert!(matches!(err, ParseError::UnknownHeader(_)));
}

#[test]
fn gtc_dispatch_smoke_test() {
    let bytes = Bytes::from_static(b"GTC:20170308145946");
    let msg = parse_frame(FrameKind::Newline, bytes).unwrap();
    assert!(matches!(msg, ProtocolMessage::ServerTime(_)));
}
