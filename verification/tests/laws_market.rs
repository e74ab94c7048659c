use ahash::AHashSet;
use bytes::Bytes;
use cedro::decimal::Decimal;
use cedro::market::engine::BookEngine;
use cedro::market::order_book::OrderBook;
use cedro::market::quote::QuoteEngine;
use cedro::market::shard::shard_of_hash;
use cedro::market::trade::{TradeBuffer, TradeRecord};
use cedro::protocol::enums::{Side, TradeAggressor, TradeCondition};
use cedro::protocol::types::{
    BookDelete, BookEntry, BookOp, QuoteDiff, QuoteFieldId, QuoteFieldValue,
};

fn entry(side: Side, position: u32, id: Option<&str>) -> BookEntry {
    BookEntry {
        position,
        side,
        price: Decimal::zero(),
        quantity: 1,
        broker_id: 1,
        timestamp_ddmmhhmm: 0,
        order_id: id.map(|s| Bytes::copy_from_slice(s.as_bytes())),
        offer_type: id.map(|_| b'L'),
    }
}

fn ids(entries: &[BookEntry]) -> Vec<String> {
    entries
        .iter()
        .map(|e| match &e.order_id {
            Some(b) => String::from_utf8(b.to_vec()).unwrap(),
            None => "-".to_owned(),
        })
        .collect()
}

/// Every order of the book is found at its place.
fn assert_complete(b: &OrderBook) {
    for (side, entries) in [(Side::Buy, b.bids()), (Side::Sell, b.asks())] {
        for (i, e) in entries.iter().enumerate() {
            if let Some(id) = &e.order_id {
                assert_eq!(b.place_of(id), Some((side, i)));
            }
        }
    }
}

#[test]
fn index_stays_in_step_through_many_operations() {
    let mut b = OrderBook::default();
    let mut seed: u64 = 7;
    let mut next = |n: u64| {
        seed = seed.wrapping_mul(6_364_136_223_846_793_005).wrapping_add(1_442_695_040_888_963_407);
        (seed >> 33) % n
    };
    for step in 0..3000_u32 {
        let side = if next(2) == 0 { Side::Buy } else { Side::Sell };
        let pos = next(12) as u32;
        let id = format!("O{step}");
        let id = if next(4) == 0 { None } else { Some(id.as_str()) };
        let op = match next(10) {
            0..=4 => BookOp::Add(entry(side, pos, id)),
            5 | 6 => BookOp::Update { old_pos: next(12) as u32, entry: entry(side, pos, id) },
            7 | 8 => BookOp::Delete(BookDelete::Single { side, position: pos }),
            _ if next(20) == 0 => BookOp::Delete(BookDelete::ClearAll),
            _ => BookOp::Delete(BookDelete::PrefixInclusive { side, position: pos % 3 }),
        };
        b.apply(op);
        assert_complete(&b);
        let with_id = |s: &[BookEntry]| s.iter().filter(|e| e.order_id.is_some()).count();
        assert_eq!(b.indexed_orders(), with_id(b.bids()) + with_id(b.asks()));
    }
}

#[test]
fn repeated_ids_never_mislead_the_index() {
    let mut b = OrderBook::default();
    b.apply(BookOp::Add(entry(Side::Buy, 0, Some("X"))));
    b.apply(BookOp::Add(entry(Side::Buy, 1, Some("X"))));
    assert_eq!(b.place_of(b"X"), Some((Side::Buy, 1)));
    b.apply(BookOp::Delete(BookDelete::Single { side: Side::Buy, position: 0 }));
    // Gone with the first of the two: not found rather than found wrongly.
    assert_eq!(b.place_of(b"X"), None);
    assert_eq!(b.stats().bids, 1);
}

#[test]
fn updates_move_or_add() {
    let mut b = OrderBook::default();
    for (i, id) in ["A", "B", "C"].iter().enumerate() {
        b.apply(BookOp::Add(entry(Side::Sell, i as u32, Some(id))));
    }
    b.apply(BookOp::Update { old_pos: 0, entry: entry(Side::Sell, 2, Some("A")) });
    assert_eq!(ids(b.asks()), ["B", "C", "A"]);
    b.apply(BookOp::Update { old_pos: 2, entry: entry(Side::Sell, 0, Some("D")) });
    assert_eq!(ids(b.asks()), ["D", "B", "C"]);
    assert_eq!(b.place_of(b"A"), None);
    // Nothing stands at the old position: the entry is added.
    b.apply(BookOp::Update { old_pos: 9, entry: entry(Side::Sell, 1, Some("E")) });
    assert_eq!(ids(b.asks()), ["D", "E", "B", "C"]);
    assert_complete(&b);
}

#[test]
fn deletes_out_of_range() {
    let mut b = OrderBook::default();
    b.apply(BookOp::Add(entry(Side::Buy, 0, Some("A"))));
    b.apply(BookOp::Delete(BookDelete::Single { side: Side::Buy, position: 1 }));
    assert_eq!(b.stats().bids, 1);
    b.apply(BookOp::Delete(BookDelete::PrefixInclusive {
        side: Side::Buy,
        position: u32::MAX,
    }));
    assert_eq!(b.stats().bids, 0);
    assert_eq!(b.indexed_orders(), 0);
    assert!(b.best_bid().is_none());
}

#[test]
fn a_delete_takes_an_add_back() {
    let mut b = OrderBook::default();
    for (i, id) in ["A", "B", "C"].iter().enumerate() {
        b.apply(BookOp::Add(entry(Side::Buy, i as u32, Some(id))));
    }
    b.apply(BookOp::Add(entry(Side::Buy, 1, Some("N"))));
    b.apply(BookOp::Delete(BookDelete::Single { side: Side::Buy, position: 1 }));
    assert_eq!(ids(b.bids()), ["A", "B", "C"]);
    assert_complete(&b);
    assert_eq!(b.indexed_orders(), 3);
}

#[test]
fn clearing_keeps_a_book_observable() {
    let mut b = OrderBook::default();
    assert!(!b.apply(BookOp::Add(entry(Side::Sell, 0, None))));
    assert!(b.apply(BookOp::EndOfInitial));
    assert!(b.apply(BookOp::Delete(BookDelete::ClearAll)));
    assert!(b.is_initialised());
    assert!(b.best_ask().is_none());
}

#[test]
fn one_side_does_not_touch_the_other() {
    let mut b = OrderBook::default();
    b.apply(BookOp::Add(entry(Side::Sell, 0, Some("S"))));
    b.apply(BookOp::Add(entry(Side::Buy, 0, Some("A"))));
    b.apply(BookOp::Add(entry(Side::Buy, 0, Some("B"))));
    b.apply(BookOp::Delete(BookDelete::PrefixInclusive { side: Side::Buy, position: 0 }));
    assert_eq!(ids(b.asks()), ["S"]);
    assert_eq!(b.place_of(b"S"), Some((Side::Sell, 0)));
    assert_eq!(b.place_of(b"A"), Some((Side::Buy, 0)));
}

#[test]
fn books_are_kept_apart_over_many_shards() {
    let mut engine = BookEngine::new(0);
    assert!(engine.is_empty());
    for i in 0..100 {
        let t = Bytes::from(format!("T{i}"));
        for p in 0..=(i % 3) {
            engine.apply(&t, BookOp::Add(entry(Side::Buy, p, None)));
        }
    }
    assert_eq!(engine.len(), 100);
    for i in 0..100_usize {
        let t = format!("T{i}");
        engine.with_book(t.as_bytes(), |b| assert_eq!(b.unwrap().stats().bids, i % 3 + 1));
    }
    engine.with_book(b"T100", |b| assert!(b.is_none()));
}

#[test]
fn filters_stop_new_operations_only() {
    let mut engine = BookEngine::new(2);
    let t = Bytes::from_static(b"PETR4");
    assert!(engine.apply(&t, BookOp::EndOfInitial));
    let mut only = AHashSet::new();
    only.insert(Bytes::from_static(b"VALE3"));
    engine.set_allowed(Some(only));
    assert!(!engine.is_allowed(b"PETR4"));
    assert!(engine.is_allowed(b"VALE3"));
    assert!(!engine.apply(&t, BookOp::Add(entry(Side::Buy, 0, None))));
    engine.with_book(b"PETR4", |b| {
        assert_eq!(b.unwrap().stats().bids, 0);
        assert!(b.unwrap().is_initialised());
    });
}

#[test]
fn shards_of_hashes() {
    assert_eq!(shard_of_hash(0, 8), 0);
    assert_eq!(shard_of_hash(17, 8), 1);
    assert_eq!(shard_of_hash(u64::from(u32::MAX), 10), 5);
}

fn ints(pairs: &[(u16, i64)]) -> QuoteDiff {
    pairs.iter().map(|(i, v)| (QuoteFieldId(*i), QuoteFieldValue::Int(*v))).collect()
}

#[test]
fn diffs_compose_and_the_last_value_wins() {
    let mut split = QuoteEngine::new();
    split.apply(Bytes::from_static(b"A"), 1, ints(&[(6, 1), (7, 2)]));
    split.apply(Bytes::from_static(b"A"), 2, ints(&[(7, 3), (7, 4)]));
    let mut whole = QuoteEngine::new();
    let n = whole.apply(Bytes::from_static(b"A"), 2, ints(&[(6, 1), (7, 2), (7, 3), (7, 4)]));
    assert_eq!(n, 4);
    for engine in [&split, &whole] {
        engine.with_state(b"A", |s| {
            let s = s.unwrap();
            assert_eq!(s.get(6), Some(&QuoteFieldValue::Int(1)));
            assert_eq!(s.get(7), Some(&QuoteFieldValue::Int(4)));
            assert_eq!(s.get(8), None);
        });
    }
    assert_eq!(split.known_tickers(), [(Bytes::from_static(b"A"), 2, 2)]);
    assert_eq!(whole.known_tickers(), [(Bytes::from_static(b"A"), 1, 2)]);
    assert_eq!(whole.len(), 1);
    assert!(!whole.is_empty());
    assert!(QuoteEngine::default().is_empty());
}

fn rec(id: &'static [u8], quantity: u64) -> TradeRecord {
    TradeRecord {
        time_hhmmss: 1,
        price: Decimal::zero(),
        quantity,
        trade_id: Bytes::from_static(id),
        broker_buy_id: 0,
        broker_sell_id: 0,
        condition: TradeCondition::NotDirect,
        aggressor: TradeAggressor::Undefined,
    }
}

#[test]
fn tapes_hold_at_least_one_trade() {
    let mut buf = TradeBuffer::new(0);
    buf.push(Bytes::from_static(b"A"), rec(b"1", 1));
    buf.push(Bytes::from_static(b"A"), rec(b"2", 2));
    let snap = buf.snapshot(b"A", 9);
    assert_eq!(snap.len(), 1);
    assert_eq!(snap[0], rec(b"2", 2));
    assert!(buf.snapshot(b"A", 0).is_empty());
    assert!(buf.snapshot(b"B", 9).is_empty());
    assert_eq!(buf.known_tickers(), 1);
}

#[test]
fn of_two_trades_with_one_id_the_older_is_removed() {
    let mut buf = TradeBuffer::new(9);
    for (id, q) in [(&b"X"[..], 1), (b"D", 2), (b"Y", 3), (b"D", 4)] {
        buf.push(Bytes::from_static(b"A"), rec(id, q));
    }
    assert!(buf.remove(b"A", b"D"));
    let left: Vec<u64> = buf.snapshot(b"A", 9).iter().map(|t| t.quantity).collect();
    assert_eq!(left, [1, 3, 4]);
    assert!(!buf.remove(b"B", b"D"));
    buf.clear(b"B");
    assert_eq!(buf.known_tickers(), 1);
    buf.clear(b"A");
    assert_eq!(buf.len_for(b"A"), 0);
    assert_eq!(buf.known_tickers(), 1);
}
