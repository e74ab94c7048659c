use bytes::Bytes;
use cedro::decimal::Decimal;
use cedro::protocol::enums::{TradeAggressor, TradeCondition};
use cedro::protocol::parser::ParseError;
use cedro::protocol::parser::gqt::parse;
use cedro::protocol::types::{ProtocolMessage, TradeOperation};

/// The value of a number's text.
fn num(d: &Decimal) -> f64 {
    d.as_str().parse().unwrap()
}

fn parse_trade(b: &'static [u8]) -> (Bytes, TradeOperation) {
    match parse(Bytes::from_static(b)).unwrap() {
        ProtocolMessage::Trade { ticker, op } => (ticker, op),
        _ => unreachable!(),
    }
}

#[test]
fn subscribe_add_with_ten_fields() {
    let (ticker, op) = parse_trade(b"V:PETR4:A:155613:43.01:239:354:100:T123456:0:A:0");
    assert_eq!(ticker.as_ref(), b"PETR4");
    match op {
        TradeOperation::Add(trade) => {
            assert_eq!(trade.time_hhmmss, 155_613);
            assert!((num(&trade.price) - 43.01).abs() < 1e-9);
            assert_eq!(trade.broker_buy_id, 239);
            assert_eq!(trade.broker_sell_id, 354);
            assert_eq!(trade.quantity, 100);
            assert_eq!(trade.trade_id.as_ref(), b"T123456");
            assert!(trade.request_id.is_none(), "subscribe should not carry request_id");
            assert_eq!(trade.condition, TradeCondition::NotDirect);
            assert_eq!(trade.aggressor, TradeAggressor::Buyer);
            assert_eq!(trade.original_conditions.as_ref(), b"0");
        }
        other => panic!("expected Add, got {other:?}"),
    }
}

#[test]
fn snapshot_add_carries_request_id() {
    let (_, op) = parse_trade(b"V:PETR4:A:155613:43.01:239:354:100:T123456:REQ-7:0:A:0");
    match op {
        TradeOperation::Add(trade) => {
            assert_eq!(trade.request_id.as_deref(), Some(b"REQ-7".as_ref()));
            assert_eq!(trade.condition, TradeCondition::NotDirect);
            assert_eq!(trade.aggressor, TradeAggressor::Buyer);
        }
        other => panic!("expected Add, got {other:?}"),
    }
}

#[test]
fn original_conditions_are_kept_as_raw_bytes() {
    let (_, op) = parse_trade(b"V:PETR4:A:155613:43.01:239:354:100:T1:2:V:RF RL MP");
    match op {
        TradeOperation::Add(trade) => {
            assert_eq!(trade.aggressor, TradeAggressor::Seller);
            assert_eq!(trade.condition, TradeCondition::Rlp);
            assert_eq!(trade.original_conditions.as_ref(), b"RF RL MP");
        }
        other => panic!("expected Add, got {other:?}"),
    }
}

#[test]
fn delete_carries_trade_id() {
    let (_, op) = parse_trade(b"V:PETR4:D:T123456");
    match op {
        TradeOperation::Delete { trade_id } => {
            assert_eq!(trade_id.as_ref(), b"T123456");
        }
        other => panic!("expected Delete, got {other:?}"),
    }
}

#[test]
fn remove_all_has_no_payload() {
    let (_, op) = parse_trade(b"V:PETR4:R");
    match op {
        TradeOperation::RemoveAll => {}
        other => panic!("expected RemoveAll, got {other:?}"),
    }
}

#[test]
fn end_of_subscribe_has_no_request_id() {
    let (_, op) = parse_trade(b"V:PETR4:E");
    match op {
        TradeOperation::EndOfSubscribe => {}
        other => panic!("expected EndOfSubscribe, got {other:?}"),
    }
}

#[test]
fn end_of_snapshot_carries_request_id() {
    let (_, op) = parse_trade(b"V:PETR4:E:REQ-7");
    match op {
        TradeOperation::EndOfSnapshot { request_id } => {
            assert_eq!(request_id.as_ref(), b"REQ-7");
        }
        other => panic!("expected EndOfSnapshot, got {other:?}"),
    }
}

#[test]
fn wrong_field_count_is_rejected() {
    // 8 fields after A — neither subscribe (9) nor snapshot (10).
    let err = parse(Bytes::from_static(b"V:PETR4:A:1:2:3:4:5:6:7:8")).unwrap_err();
    assert!(matches!(err, ParseError::InvalidField { field: "trade fields", .. }));
}

#[test]
fn aggressor_codes_round_trip() {
    for (byte, expected) in [
        (b'A', TradeAggressor::Buyer),
        (b'V', TradeAggressor::Seller),
        (b'I', TradeAggressor::Undefined),
    ] {
        let frame = format!("V:PETR4:A:155613:1.0:1:1:1:T1:0:{}:0", byte as char);
        let bytes = Bytes::from(frame.into_bytes());
        let msg = parse(bytes).unwrap();
        match msg {
            ProtocolMessage::Trade { op: TradeOperation::Add(trade), .. } => {
                assert_eq!(trade.aggressor, expected);
            }
            _ => unreachable!(),
        }
    }
}
