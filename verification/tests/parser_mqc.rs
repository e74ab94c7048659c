use bytes::Bytes;
use cedro::protocol::parser::mqc::parse;
use cedro::protocol::types::{MqcItem, ProtocolMessage};

#[test]
fn parses_symbol_lines() {
    let cases: &[(&[u8], &[u8], &[u8])] = &[
        (b"C:BOVESPA:PETR4", b"BOVESPA", b"PETR4"),
        (b"C:BOVESPA:VALE3", b"BOVESPA", b"VALE3"),
        (b"C:BMF:WDOZ25", b"BMF", b"WDOZ25"),
    ];
    for (input, market, ticker) in cases {
        let msg = parse(Bytes::from_static(input)).unwrap();
        match msg {
            ProtocolMessage::MqcItem(MqcItem::Symbol {
                market: m,
                ticker: t,
            }) => {
                assert_eq!(m.as_ref(), *market);
                assert_eq!(t.as_ref(), *ticker);
            }
            other => panic!("expected Symbol, got {other:?}"),
        }
    }
}

#[test]
fn parses_end_sentinel() {
    let msg = parse(Bytes::from_static(b"C:BOVESPA:E")).unwrap();
    match msg {
        ProtocolMessage::MqcItem(MqcItem::End { market }) => {
            assert_eq!(market.as_ref(), b"BOVESPA");
        }
        other => panic!("expected End, got {other:?}"),
    }
}

#[test]
fn does_not_confuse_ticker_named_e_with_terminator() {
    // Hypothetical (and unlikely) ticker named "E" — only the
    // exact-three-field rule prevents misclassification.
    // a 3-field line with token 2 = `E` is always the end-sentinel.
    // A line `C:BOV:E:extra` is NOT (4 fields).
    let msg = parse(Bytes::from_static(b"C:BOV:E:extra")).unwrap();
    match msg {
        ProtocolMessage::MqcItem(MqcItem::Symbol { ticker, .. }) => {
            assert_eq!(ticker.as_ref(), b"E");
        }
        other => panic!("expected Symbol, got {other:?}"),
    }
}
