use bytes::Bytes;
use cedro::decimal::Decimal;
use cedro::protocol::enums::Side;
use cedro::protocol::parser::ParseError;
use cedro::protocol::parser::bqt::parse;
use cedro::protocol::types::{BookDelete, BookOp, ProtocolMessage};

/// The value of a number's text.
fn num(d: &Decimal) -> f64 {
    d.as_str().parse().unwrap()
}

fn parse_book(b: &'static [u8]) -> (Bytes, BookOp) {
    match parse(Bytes::from_static(b)).unwrap() {
        ProtocolMessage::Book { ticker, op } => (ticker, op),
        _ => unreachable!(),
    }
}

#[test]
fn add_legacy_seven_field_layout_from_spec() {
    let (ticker, op) = parse_book(b"B:PETR4:A:0:A:99.99:100:131:11041005");
    assert_eq!(ticker.as_ref(), b"PETR4");
    match op {
        BookOp::Add(entry) => {
            assert_eq!(entry.position, 0);
            assert_eq!(entry.side, Side::Buy);
            assert!((num(&entry.price) - 99.99).abs() < 1e-9);
            assert_eq!(entry.quantity, 100);
            assert_eq!(entry.broker_id, 131);
            assert_eq!(entry.timestamp_ddmmhhmm, 11_041_005);
            assert!(entry.order_id.is_none());
            assert!(entry.offer_type.is_none());
        }
        other => panic!("expected Add, got {other:?}"),
    }
}

#[test]
fn add_full_nine_field_layout() {
    let (_, op) = parse_book(b"B:PETR4:A:0:A:99.99:100:131:11041005:ORD-XYZ-1:L");
    match op {
        BookOp::Add(entry) => {
            assert_eq!(entry.order_id.as_deref(), Some(b"ORD-XYZ-1".as_ref()));
            assert_eq!(entry.offer_type, Some(b'L'));
        }
        other => panic!("expected Add, got {other:?}"),
    }
}

#[test]
fn update_carries_both_positions() {
    let (_, op) = parse_book(b"B:PETR4:U:1:0:A:99.98:500:37:11041130");
    match op {
        BookOp::Update { old_pos, entry } => {
            assert_eq!(old_pos, 0);
            assert_eq!(entry.position, 1);
            assert!((num(&entry.price) - 99.98).abs() < 1e-9);
            assert_eq!(entry.quantity, 500);
            assert_eq!(entry.broker_id, 37);
        }
        other => panic!("expected Update, got {other:?}"),
    }
}

#[test]
fn delete_kind_one_targets_a_single_entry() {
    let (_, op) = parse_book(b"B:PETR4:D:1:V:4");
    match op {
        BookOp::Delete(BookDelete::Single { side, position }) => {
            assert_eq!(side, Side::Sell);
            assert_eq!(position, 4);
        }
        other => panic!("expected Single delete, got {other:?}"),
    }
}

#[test]
fn delete_kind_two_is_prefix_inclusive() {
    let (_, op) = parse_book(b"B:PETR4:D:2:A:2");
    match op {
        BookOp::Delete(BookDelete::PrefixInclusive { side, position }) => {
            assert_eq!(side, Side::Buy);
            assert_eq!(position, 2);
        }
        other => panic!("expected PrefixInclusive, got {other:?}"),
    }
}

#[test]
fn delete_kind_three_is_clear_all_without_side_or_position() {
    let (_, op) = parse_book(b"B:PETR4:D:3");
    match op {
        BookOp::Delete(BookDelete::ClearAll) => {}
        other => panic!("expected ClearAll, got {other:?}"),
    }
}

#[test]
fn bqt_end_of_initial_marker() {
    let (_, op) = parse_book(b"B:PETR4:E");
    match op {
        BookOp::EndOfInitial => {}
        other => panic!("expected EndOfInitial, got {other:?}"),
    }
}

#[test]
fn invalid_side_byte_is_rejected() {
    let err = parse(Bytes::from_static(b"B:PETR4:A:0:X:99:1:1:11041005")).unwrap_err();
    assert!(matches!(err, ParseError::InvalidField { field: "book side", .. }));
}

#[test]
fn unknown_delete_kind_is_rejected() {
    let err = parse(Bytes::from_static(b"B:PETR4:D:9:V:0")).unwrap_err();
    assert!(matches!(err, ParseError::InvalidField { field: "delete kind", .. }));
}

#[test]
fn dangling_order_id_without_offer_type_is_an_error() {
    // Half a tail = malformed. Defensive: surface as MissingField rather
    // than silently dropping order_id.
    let err = parse(Bytes::from_static(b"B:PETR4:A:0:A:99.99:100:131:11041005:ORD1")).unwrap_err();
    assert!(matches!(err, ParseError::MissingField { .. }));
}
