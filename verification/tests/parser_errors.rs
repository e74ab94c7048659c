use bytes::Bytes;
use cedro::protocol::frame::{FrameKind, FrameSplitter};
use cedro::protocol::parser::{parse_frame, ParseError};
use cedro::protocol::types::{ProtocolMessage, TradeOperation};

fn parse(kind: FrameKind, frame: &'static [u8]) -> Result<ProtocolMessage, ParseError> {
    parse_frame(kind, Bytes::from_static(frame))
}

#[test]
fn each_header_has_its_terminator() {
    let wrong = ParseError::InvalidField {
        field: "terminator",
        reason: "expected ! after T frames and a newline after all others",
    };
    assert!(parse(FrameKind::Bang, b"T:PETR4:101758:2:59.95").is_ok());
    assert_eq!(parse(FrameKind::Newline, b"T:PETR4:101758:2:59.95").unwrap_err(), wrong);
    for frame in [
        &b"B:PETR4:E"[..],
        b"Z:PETR4:E",
        b"V:PETR4:R",
        b"O:L:1:END",
        b"VAP:PETR4:E",
        b"GTC:20170308145946",
        b"C:BMF:E",
        b"G:BOVESPA:3:XP:33:1",
        b"E:12:host",
    ] {
        assert!(parse(FrameKind::Newline, frame).is_ok());
        assert_eq!(parse(FrameKind::Bang, frame).unwrap_err(), wrong);
    }
    // The terminator is looked at before the fields, and after the header.
    assert_eq!(parse(FrameKind::Newline, b"T:").unwrap_err(), wrong);
    assert!(matches!(
        parse(FrameKind::Bang, b"X:what").unwrap_err(),
        ParseError::UnknownHeader(_)
    ));
    assert_eq!(parse(FrameKind::Bang, b"").unwrap_err(), ParseError::Empty);
}

#[test]
fn a_stream_comes_with_the_right_terminators() {
    let mut splitter = FrameSplitter::with_capacity(64);
    splitter.extend_from_slice(b"T:PETR4:101758!B:PETR4:E\nT:VALE3:101759\n");
    let out: Vec<bool> =
        splitter.drain().into_iter().map(|(k, f)| parse_frame(k, f).is_ok()).collect();
    assert_eq!(out, [true, true, false]);
}

#[test]
fn trades_are_counted_to_the_end() {
    let fields = |op: ProtocolMessage| match op {
        ProtocolMessage::Trade { op: TradeOperation::Add(t), .. } => t.request_id.is_some(),
        other => panic!("expected a trade, got {other:?}"),
    };
    let nl = FrameKind::Newline;
    // A dangling colon is passed over.
    let sub = parse(nl, b"V:PETR4:A:155613:43.01:239:354:100:T1:1:A:0:").unwrap();
    assert!(!fields(sub));
    let snap = parse(nl, b"V:PETR4:A:155613:43.01:239:354:100:T1:REQ:1:A:0:").unwrap();
    assert!(fields(snap));
    // An empty field in the middle is a field like any other.
    for frame in [
        &b"V:PETR4:A:155613:43.01:239:354:100:T1:1:A:0::junk"[..],
        b"V:PETR4:A:155613:43.01:239:354:100:T1:REQ:1:A:0::junk",
        b"V:PETR4:A:155613:43.01:239:354:100:T1:1:A",
    ] {
        assert_eq!(
            parse(nl, frame).unwrap_err(),
            ParseError::InvalidField {
                field: "trade fields",
                reason: "expected 9 (subscribe) or 10 (snapshot) fields after A",
            }
        );
    }
}

#[test]
fn the_first_fault_from_the_left_is_told() {
    let nl = FrameKind::Newline;
    assert_eq!(
        parse(nl, b"B:PETR4").unwrap_err(),
        ParseError::MissingField { position: 3, expected: "book op" }
    );
    assert_eq!(
        parse(nl, b"B:PETR4:A:x:Q:y").unwrap_err(),
        ParseError::BadInteger { field: "position" }
    );
    assert_eq!(
        parse(nl, b"B:PETR4:A:0:Q:y").unwrap_err(),
        ParseError::InvalidField { field: "book side", reason: "expected A (buy) or V (sell)" }
    );
    assert_eq!(
        parse(nl, b"B:PETR4:A:0:AV:y").unwrap_err(),
        ParseError::InvalidField { field: "book side", reason: "expected one byte (A or V)" }
    );
    assert_eq!(
        parse(nl, b"B:PETR4:A:0:A:1,5").unwrap_err(),
        ParseError::BadFloat { field: "price" }
    );
    assert_eq!(
        parse(nl, b"B:PETR4:A:0:A:\xff").unwrap_err(),
        ParseError::BadEncoding { field: "price" }
    );
}

#[test]
fn parse_errors_have_messages() {
    assert_eq!(ParseError::Empty.message(), "empty frame");
    assert_eq!(
        ParseError::UnknownHeader(Bytes::from_static(b"X:\xff\"")).message(),
        "unknown functional header: b\"X:\\xff\\\"\""
    );
    assert_eq!(
        ParseError::MissingField { position: 12, expected: "ticker" }.message(),
        "missing field at position 12 (expected ticker)"
    );
    assert_eq!(
        ParseError::InvalidField { field: "side", reason: "odd" }.message(),
        "invalid side: odd"
    );
    assert_eq!(
        ParseError::BadEncoding { field: "price" }.message(),
        "malformed UTF-8 / invalid byte sequence in price"
    );
    assert_eq!(
        ParseError::BadInteger { field: "qty" }.message(),
        "invalid integer in field qty"
    );
    assert_eq!(
        ParseError::BadFloat { field: "price" }.message(),
        "invalid float in field price"
    );
    assert_eq!(
        ParseError::NotImplemented { header: "Q" }.message(),
        "parser for header Q not yet implemented"
    );
}

#[test]
fn unknown_headers_are_shown_with_escapes() {
    let e = ParseError::UnknownHeader(Bytes::from_static(b"a~ \n\r\t\\\"\0\x01\x7f\xab"));
    assert_eq!(
        e.message(),
        "unknown functional header: b\"a~ \\n\\r\\t\\\\\\\"\\0\\x01\\x7f\\xab\""
    );
}
