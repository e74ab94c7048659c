use bytes::Bytes;
use cedro::protocol::parser::ParseError;
use cedro::protocol::parser::nem::parse;
use cedro::protocol::types::{NewsMessage, ProtocolMessage};

fn parse_news(b: &'static [u8]) -> NewsMessage {
    match parse(Bytes::from_static(b)).unwrap() {
        ProtocolMessage::News(m) => m,
        _ => unreachable!(),
    }
}

#[test]
fn live_headline_from_spec_example() {
    let msg = parse_news(
        b"O:A:BOV:1565281:20090617:134432:1:46:LEILAO DE IBOVT40 (OPV IBOV AGO/40.000) ATE 13",
    );
    match msg {
        NewsMessage::Headline(h) => {
            assert_eq!(h.agency.as_ref(), b"BOV");
            assert_eq!(h.code.as_ref(), b"1565281");
            assert_eq!(h.date, 20_090_617);
            assert_eq!(h.time, 134_432);
            assert_eq!(h.category, 1);
            assert!(h.title.starts_with(b"LEILAO"));
        }
        other => panic!("expected Headline, got {other:?}"),
    }
}

#[test]
fn history_item_carries_request_id() {
    let msg = parse_news(
        b"O:L:123:BOV:1565287:20090617:134715:1:62:17:06-OFERTAS DISPONIVEIS NO BANCO DE TITULOS CBLC-BTC-4 13:46",
    );
    match msg {
        NewsMessage::HistoryItem { request_id, headline } => {
            assert_eq!(request_id.as_ref(), b"123");
            assert_eq!(headline.agency.as_ref(), b"BOV");
            assert_eq!(headline.code.as_ref(), b"1565287");
            // Title contains `:` and must round-trip verbatim.
            assert!(headline.title.ends_with(b"BTC-4 13:46"));
        }
        other => panic!("expected HistoryItem, got {other:?}"),
    }
}

#[test]
fn history_end_marker() {
    let msg = parse_news(b"O:L:123:END");
    match msg {
        NewsMessage::HistoryEnd { request_id } => {
            assert_eq!(request_id.as_ref(), b"123");
        }
        other => panic!("expected HistoryEnd, got {other:?}"),
    }
}

#[test]
fn body_preserves_colons_and_etx() {
    // `\x03` (ETX) replaces `\r\n` in news bodies — must NOT be touched here.
    let frame: &[u8] = b"O:N:123:CFN:2221941:Headline\x03Paragraph 2: more text\x03End";
    let ProtocolMessage::News(msg) = parse(Bytes::copy_from_slice(frame)).unwrap() else {
        unreachable!()
    };
    match msg {
        NewsMessage::Body { request_id, agency, code, body_raw } => {
            assert_eq!(request_id.as_ref(), b"123");
            assert_eq!(agency.as_ref(), b"CFN");
            assert_eq!(code.as_ref(), b"2221941");
            // Body keeps ETX and `:` exactly as the server sent them.
            assert_eq!(body_raw.as_ref(), b"Headline\x03Paragraph 2: more text\x03End");
        }
        other => panic!("expected Body, got {other:?}"),
    }
}

#[test]
fn body_from_spec_example() {
    let msg = parse_news(
        b"O:N:123:CFN:2221941:Mineradores Mamani e Pena recebem alta do hospital no Chile",
    );
    match msg {
        NewsMessage::Body { body_raw, .. } => {
            assert!(body_raw.starts_with(b"Mineradores"));
            assert!(body_raw.ends_with(b"Chile"));
        }
        other => panic!("expected Body, got {other:?}"),
    }
}

#[test]
fn unknown_news_kind_is_rejected() {
    let err = parse(Bytes::from_static(b"O:Q:weird")).unwrap_err();
    assert!(matches!(err, ParseError::InvalidField { field: "news kind", .. }));
}
