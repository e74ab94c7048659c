use bytes::Bytes;
use cedro::decimal::Decimal;
use cedro::protocol::parser::ParseError;
use cedro::protocol::parser::sqt::parse;
use cedro::protocol::types::{ProtocolMessage, QuoteDiff, QuoteFieldId, QuoteFieldValue};

/// The value of a number's text.
fn num(d: &Decimal) -> f64 {
    d.as_str().parse().unwrap()
}

/// The value of a floating-point field.
fn as_float(v: &QuoteFieldValue) -> f64 {
    match v {
        QuoteFieldValue::Float(d) => num(d),
        other => panic!("expected Float, got {other:?}"),
    }
}

fn parse_ok(bytes: &'static [u8]) -> (Bytes, u32, QuoteDiff) {
    match parse(Bytes::from_static(bytes)).unwrap() {
        ProtocolMessage::Quote {
            ticker,
            time_hhmmss,
            diff,
        } => (ticker, time_hhmmss, diff),
        _ => unreachable!(),
    }
}

#[test]
fn first_snapshot_example_from_spec() {
    let (ticker, time, diff) =
        parse_ok(b"T:PETR4:101758:1:20070926:2:59.95:3:59.93:4:59.96:5:101757:6:0:7:800:8:361:9:354600");
    assert_eq!(ticker.as_ref(), b"PETR4");
    assert_eq!(time, 101_758);
    assert_eq!(diff.len(), 9);

    // Spot-check a few well-known fields.
    let by_id: std::collections::HashMap<_, _> = diff.iter().cloned().collect();
    // Index 1 (last-modification date) → YYYYMMDD.
    assert_eq!(by_id[&QuoteFieldId(1)], QuoteFieldValue::Date(20_070_926));
    // Index 2 (last trade price) → float.
    assert_eq!(as_float(&by_id[&QuoteFieldId(2)]), 59.95);
    // Index 9 (accumulated volume) → integer.
    assert_eq!(by_id[&QuoteFieldId(9)], QuoteFieldValue::Int(354_600));
}

#[test]
fn incremental_update_example_from_spec() {
    // `T:PETR4:155613:3:43.01:19:2000:60:239:17:4000`
    let (_, _, diff) = parse_ok(b"T:PETR4:155613:3:43.01:19:2000:60:239:17:4000");
    let by_id: std::collections::HashMap<_, _> = diff.iter().cloned().collect();
    assert_eq!(as_float(&by_id[&QuoteFieldId(3)]), 43.01);
    // Index 19 (volume of best buy offer) → integer.
    assert_eq!(by_id[&QuoteFieldId(19)], QuoteFieldValue::Int(2000));
    // Index 60 (broker code best buy) → integer.
    assert_eq!(by_id[&QuoteFieldId(60)], QuoteFieldValue::Int(239));
    assert_eq!(as_float(&by_id[&QuoteFieldId(17)]), 4000.0);
}

#[test]
fn phase_field_decodes_two_byte_codes() {
    // Field 88 carries the group phase as a 1- or 2-byte code.
    let (_, _, diff) = parse_ok(b"T:PETR4:101758:88:PN");
    assert_eq!(diff[0].0, QuoteFieldId(88));
    assert_eq!(diff[0].1, QuoteFieldValue::Phase([b'P', b'N']));
}

#[test]
fn description_field_keeps_string_payload() {
    // Field 47 (ticker description) → free-form string.
    let (_, _, diff) = parse_ok(b"T:WDOZ25:101758:47:DOL");
    if let QuoteFieldValue::Str(s) = &diff[0].1 {
        assert_eq!(s.as_ref(), b"DOL");
    } else {
        panic!("expected Str");
    }
}

#[test]
fn malformed_value_is_surfaced_with_field_context() {
    // Index 9 expects an integer but the value is gibberish.
    let err = parse(Bytes::from_static(b"T:PETR4:101758:9:not-a-number")).unwrap_err();
    assert!(matches!(err, ParseError::BadInteger { .. }));
}

#[test]
fn odd_number_of_diff_tokens_is_rejected() {
    // Missing value for index 9.
    let err = parse(Bytes::from_static(b"T:PETR4:101758:9")).unwrap_err();
    assert!(matches!(err, ParseError::MissingField { .. }));
}
