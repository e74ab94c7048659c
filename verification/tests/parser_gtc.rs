use bytes::Bytes;
use cedro::protocol::parser::ParseError;
use cedro::protocol::parser::gtc::parse;
use cedro::protocol::types::{ProtocolMessage, ServerTime};

#[test]
fn parses_documented_example() {
    let msg = parse(Bytes::from_static(b"GTC:20170308145946")).unwrap();
    match msg {
        ProtocolMessage::ServerTime(ServerTime { date, time }) => {
            assert_eq!(date, 20_170_308);
            assert_eq!(time, 145_946);
        }
        other => panic!("expected ServerTime, got {other:?}"),
    }
}

#[test]
fn rejects_short_payload() {
    let err = parse(Bytes::from_static(b"GTC:2017")).unwrap_err();
    assert!(matches!(err, ParseError::InvalidField { .. }));
}
