use bytes::Bytes;
use cedro::decimal::Decimal;
use cedro::market::quote::QuoteEngine;
use cedro::protocol::types::{QuoteDiff, QuoteFieldId, QuoteFieldValue};

fn float(v: f64) -> QuoteFieldValue {
    QuoteFieldValue::Float(Decimal::new(Bytes::from(v.to_string().into_bytes())).unwrap())
}

fn diff(pairs: &[(u16, QuoteFieldValue)]) -> QuoteDiff {
    pairs
        .iter()
        .cloned()
        .map(|(idx, v)| (QuoteFieldId(idx), v))
        .collect()
}

#[test]
fn first_apply_creates_state_and_records_fields() {
    let mut engine = QuoteEngine::new();
    let updated = engine.apply(
        Bytes::from_static(b"PETR4"),
        101_758,
        diff(&[
            (2, float(59.95)),
            (9, QuoteFieldValue::Int(354_600)),
        ]),
    );
    assert_eq!(updated, 2);
    engine.with_state(b"PETR4", |s| {
        let state = s.expect("PETR4 should exist");
        assert_eq!(state.time_hhmmss, 101_758);
        assert_eq!(state.version, 1);
        assert_eq!(state.get(2), Some(&float(59.95)));
        assert_eq!(state.get(9), Some(&QuoteFieldValue::Int(354_600)));
    });
}

#[test]
fn delta_overrides_only_changed_fields() {
    let mut engine = QuoteEngine::new();
    engine.apply(
        Bytes::from_static(b"PETR4"),
        101_758,
        diff(&[
            (2, float(59.95)),
            (3, float(59.93)),
        ]),
    );
    // Delta: only field 2 changes.
    engine.apply(
        Bytes::from_static(b"PETR4"),
        101_800,
        diff(&[(2, float(60.00))]),
    );
    engine.with_state(b"PETR4", |s| {
        let state = s.expect("PETR4 should exist");
        assert_eq!(state.version, 2);
        assert_eq!(state.time_hhmmss, 101_800);
        // Updated.
        assert_eq!(state.get(2), Some(&float(60.00)));
        // Preserved from the prior snapshot.
        assert_eq!(state.get(3), Some(&float(59.93)));
    });
}

#[test]
fn distinct_tickers_are_isolated() {
    let mut engine = QuoteEngine::new();
    engine.apply(
        Bytes::from_static(b"PETR4"),
        1,
        diff(&[(2, float(1.0))]),
    );
    engine.apply(
        Bytes::from_static(b"VALE3"),
        2,
        diff(&[(2, float(2.0))]),
    );
    assert_eq!(engine.len(), 2);
    engine.with_state(b"PETR4", |s| {
        assert_eq!(s.unwrap().get(2), Some(&float(1.0)));
    });
    engine.with_state(b"VALE3", |s| {
        assert_eq!(s.unwrap().get(2), Some(&float(2.0)));
    });
}

#[test]
fn known_tickers_snapshot_is_independent_of_subsequent_writes() {
    let mut engine = QuoteEngine::new();
    engine.apply(
        Bytes::from_static(b"A"),
        1,
        diff(&[(2, float(1.0))]),
    );
    let snap_before = engine.known_tickers();
    engine.apply(
        Bytes::from_static(b"B"),
        2,
        diff(&[(2, float(2.0))]),
    );
    assert_eq!(snap_before.len(), 1);
    assert_eq!(engine.len(), 2);
}

#[test]
fn lookup_for_unknown_ticker_returns_none() {
    let engine = QuoteEngine::new();
    engine.with_state(b"NOPE", |s| assert!(s.is_none()));
}

#[test]
fn copies_of_a_state_are_its_own() {
    let mut engine = QuoteEngine::new();
    let pairs = [
        (2, float(10.5)),
        (3, QuoteFieldValue::Int(-7)),
        (4, QuoteFieldValue::Str(Bytes::from_static(b"x"))),
        (5, QuoteFieldValue::Phase(*b"PR")),
    ];
    engine.apply(Bytes::from_static(b"PETR4"), 101_500, diff(&pairs));
    let copy = engine.with_state(b"PETR4", |s| s.unwrap().clone());
    engine.apply(Bytes::from_static(b"PETR4"), 101_501, diff(&[(2, float(11.0))]));
    assert_eq!((copy.time_hhmmss, copy.version), (101_500, 1));
    for (idx, value) in &pairs {
        assert_eq!(copy.get(*idx), Some(value));
    }
    assert_eq!(copy.get(6), None);
}
