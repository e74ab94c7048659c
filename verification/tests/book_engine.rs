use bytes::Bytes;
use cedro::decimal::Decimal;
use cedro::market::engine::BookEngine;
use cedro::protocol::enums::Side;
use cedro::protocol::types::{BookEntry, BookOp};

/// A number as the feed would write it.
fn dec(v: f64) -> Decimal {
    Decimal::new(Bytes::from(v.to_string().into_bytes())).unwrap()
}

fn entry(side: Side, pos: u32, price: f64) -> BookEntry {
    BookEntry {
        position: pos,
        side,
        price: dec(price),
        quantity: 1,
        broker_id: 1,
        timestamp_ddmmhhmm: 0,
        order_id: None,
        offer_type: None,
    }
}

#[test]
fn applies_ops_through_to_per_ticker_books() {
    let mut engine = BookEngine::new(4);
    let petr = Bytes::from_static(b"PETR4");
    engine.apply(&petr, BookOp::Add(entry(Side::Buy, 0, 100.0)));
    engine.apply(&petr, BookOp::Add(entry(Side::Buy, 1, 99.0)));
    engine.apply(&petr, BookOp::EndOfInitial);
    engine.with_book(b"PETR4", |b| {
        let book = b.expect("PETR4 book should exist");
        let s = book.stats();
        assert_eq!(s.bids, 2);
        assert_eq!(s.asks, 0);
        assert!(book.is_initialised());
    });
}

#[test]
fn distinct_tickers_can_share_a_shard_without_corruption() {
    // Force shard count to 1 so both tickers land together.
    let mut engine = BookEngine::new(1);
    engine.apply(
        &Bytes::from_static(b"PETR4"),
        BookOp::Add(entry(Side::Buy, 0, 100.0)),
    );
    engine.apply(
        &Bytes::from_static(b"VALE3"),
        BookOp::Add(entry(Side::Sell, 0, 200.0)),
    );
    engine.with_book(b"PETR4", |b| {
        assert_eq!(b.unwrap().stats().bids, 1);
    });
    engine.with_book(b"VALE3", |b| {
        assert_eq!(b.unwrap().stats().asks, 1);
    });
    assert_eq!(engine.len(), 2);
}

#[test]
fn allowlist_filter_blocks_disallowed_tickers() {
    let mut engine = BookEngine::new(2);
    let mut allowed = ahash::AHashSet::new();
    allowed.insert(Bytes::from_static(b"PETR4"));
    engine.set_allowed(Some(allowed));

    let petr = Bytes::from_static(b"PETR4");
    let wdo = Bytes::from_static(b"WDOZ25");
    // PETR4 is in the allow-list — call should succeed (return value is
    // `false` because we haven't sent EndOfInitial yet; we only assert
    // the book was created).
    let _ = engine.apply(&petr, BookOp::Add(entry(Side::Buy, 0, 1.0)));
    let result = engine.apply(&wdo, BookOp::Add(entry(Side::Buy, 0, 1.0)));
    assert!(!result, "WDO should be rejected");
    engine.with_book(b"WDOZ25", |b| assert!(b.is_none()));
    engine.with_book(b"PETR4", |b| assert_eq!(b.unwrap().stats().bids, 1));
}

#[test]
fn clearing_the_filter_re_enables_every_ticker() {
    let mut engine = BookEngine::new(2);
    engine.set_allowed(Some(ahash::AHashSet::new())); // empty allow-list = nothing allowed
    let petr = Bytes::from_static(b"PETR4");
    assert!(!engine.apply(&petr, BookOp::Add(entry(Side::Buy, 0, 1.0))));
    engine.set_allowed(None);
    let _ = engine.apply(&petr, BookOp::Add(entry(Side::Buy, 0, 1.0)));
    engine.with_book(b"PETR4", |b| {
        assert_eq!(b.unwrap().stats().bids, 1);
    });
}
