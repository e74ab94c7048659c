use bytes::Bytes;
use cedro::decimal::Decimal;
use cedro::protocol::enums::Side;
use cedro::protocol::parser::ParseError;
use cedro::protocol::parser::sab::parse;
use cedro::protocol::types::{AggBookOp, BookDelete, ProtocolMessage};

/// The value of a number's text.
fn num(d: &Decimal) -> f64 {
    d.as_str().parse().unwrap()
}

fn parse_agg(b: &'static [u8]) -> (Bytes, AggBookOp) {
    match parse(Bytes::from_static(b)).unwrap() {
        ProtocolMessage::AggBook { ticker, op } => (ticker, op),
        _ => unreachable!(),
    }
}

#[test]
fn buy_level_from_spec_example() {
    let (ticker, op) = parse_agg(b"Z:PETR4:A:3:A:32.500:1000:3:08040214");
    assert_eq!(ticker.as_ref(), b"PETR4");
    match op {
        AggBookOp::Add(level) => {
            assert_eq!(level.position, 3);
            assert_eq!(level.side, Side::Buy);
            assert!((num(&level.price) - 32.500).abs() < 1e-9);
            assert_eq!(level.quantity, 1000);
            assert_eq!(level.offer_count, 3);
            assert_eq!(level.timestamp_ddmmhhmm, 8_040_214);
        }
        other => panic!("expected Add, got {other:?}"),
    }
}

#[test]
fn sell_level_from_spec_example() {
    // `Z:PETR4:A:0:V:32.600:3200:9:08040214`
    let (_, op) = parse_agg(b"Z:PETR4:A:0:V:32.600:3200:9:08040214");
    match op {
        AggBookOp::Add(level) => {
            assert_eq!(level.side, Side::Sell);
            assert_eq!(level.quantity, 3200);
            assert_eq!(level.offer_count, 9);
        }
        other => panic!("expected Add, got {other:?}"),
    }
}

#[test]
fn update_uses_same_layout_as_add() {
    let (_, op) = parse_agg(b"Z:PETR4:U:1:A:32.550:500:2:08040214");
    match op {
        AggBookOp::Update(level) => {
            assert_eq!(level.position, 1);
            assert_eq!(level.offer_count, 2);
        }
        other => panic!("expected Update, got {other:?}"),
    }
}

#[test]
fn delete_one_works() {
    let (_, op) = parse_agg(b"Z:PETR4:D:1:V:3");
    match op {
        AggBookOp::Delete(BookDelete::Single { side, position }) => {
            assert_eq!(side, Side::Sell);
            assert_eq!(position, 3);
        }
        other => panic!("expected Single delete, got {other:?}"),
    }
}

#[test]
fn delete_three_clears_everything() {
    let (_, op) = parse_agg(b"Z:PETR4:D:3");
    match op {
        AggBookOp::Delete(BookDelete::ClearAll) => {}
        other => panic!("expected ClearAll, got {other:?}"),
    }
}

#[test]
fn delete_two_is_rejected_for_sab() {
    // BQT supports prefix-inclusive delete; SAB does not. Make sure
    // we don't silently accept it.
    let err = parse(Bytes::from_static(b"Z:PETR4:D:2:A:5")).unwrap_err();
    match err {
        ParseError::InvalidField { field: "delete kind", reason } => {
            assert!(reason.contains("BQT-only"));
        }
        other => panic!("expected InvalidField with delete-kind reason, got {other:?}"),
    }
}

#[test]
fn sab_end_of_initial_marker() {
    let (_, op) = parse_agg(b"Z:PETR4:E");
    match op {
        AggBookOp::EndOfInitial => {}
        other => panic!("expected EndOfInitial, got {other:?}"),
    }
}
