use bytes::Bytes;
use cedro::decimal::Decimal;
use cedro::market::order_book::{OrderBook, OrderBookStats};
use cedro::protocol::enums::Side;
use cedro::protocol::types::{BookDelete, BookEntry, BookOp};

/// The value of a number's text.
fn num(d: &Decimal) -> f64 {
    d.as_str().parse().unwrap()
}

/// A number as the feed would write it.
fn dec(v: f64) -> Decimal {
    Decimal::new(Bytes::from(v.to_string().into_bytes())).unwrap()
}

fn entry(side: Side, pos: u32, price: f64, qty: u64, broker: u32) -> BookEntry {
    BookEntry {
        position: pos,
        side,
        price: dec(price),
        quantity: qty,
        broker_id: broker,
        timestamp_ddmmhhmm: 11_041_005,
        order_id: None,
        offer_type: None,
    }
}

fn entry_with_id(side: Side, pos: u32, id: &'static [u8]) -> BookEntry {
    BookEntry {
        position: pos,
        side,
        price: dec(100.0),
        quantity: 1,
        broker_id: 1,
        timestamp_ddmmhhmm: 0,
        order_id: Some(Bytes::from_static(id)),
        offer_type: Some(b'L'),
    }
}

#[test]
fn add_appends_when_position_at_end() {
    let mut b = OrderBook::default();
    b.apply(BookOp::Add(entry(Side::Buy, 0, 99.99, 100, 131)));
    b.apply(BookOp::Add(entry(Side::Buy, 1, 99.98, 200, 132)));
    let stats = b.stats();
    assert_eq!(stats.bids, 2);
    assert_eq!(stats.asks, 0);
    assert!((num(&b.best_bid().unwrap().price) - 99.99).abs() < 1e-9);
}

#[test]
fn add_at_middle_shifts_later_entries() {
    let mut b = OrderBook::default();
    b.apply(BookOp::Add(entry(Side::Buy, 0, 100.0, 1, 1)));
    b.apply(BookOp::Add(entry(Side::Buy, 1, 99.0, 1, 2)));
    // Insert a new entry at position 1, bumping the old one to 2.
    b.apply(BookOp::Add(entry(Side::Buy, 1, 99.5, 1, 3)));
    assert_eq!(b.stats().bids, 3);
    assert!((num(&b.bids()[0].price) - 100.0).abs() < 1e-9);
    assert!((num(&b.bids()[1].price) - 99.5).abs() < 1e-9);
    assert!((num(&b.bids()[2].price) - 99.0).abs() < 1e-9);
}

#[test]
fn update_moves_entry_between_positions() {
    let mut b = OrderBook::default();
    b.apply(BookOp::Add(entry(Side::Buy, 0, 100.0, 1, 1)));
    b.apply(BookOp::Add(entry(Side::Buy, 1, 99.0, 1, 2)));

    // Move position 0 -> 1, repricing.
    let mut updated = entry(Side::Buy, 1, 98.0, 1, 1);
    updated.position = 1;
    b.apply(BookOp::Update {
        old_pos: 0,
        entry: updated,
    });

    assert_eq!(b.stats().bids, 2);
    assert!((num(&b.bids()[1].price) - 98.0).abs() < 1e-9);
}

#[test]
fn delete_single_removes_one_entry() {
    let mut b = OrderBook::default();
    b.apply(BookOp::Add(entry(Side::Sell, 0, 100.0, 1, 1)));
    b.apply(BookOp::Add(entry(Side::Sell, 1, 101.0, 1, 2)));
    b.apply(BookOp::Delete(BookDelete::Single {
        side: Side::Sell,
        position: 0,
    }));
    assert_eq!(b.stats().asks, 1);
    assert!((num(&b.best_ask().unwrap().price) - 101.0).abs() < 1e-9);
}

#[test]
fn delete_prefix_inclusive_clears_through_position() {
    let mut b = OrderBook::default();
    for i in 0..5 {
        b.apply(BookOp::Add(entry(Side::Buy, i, 100.0 - f64::from(i), 1, 1)));
    }
    // Delete positions 0..=2 (3 entries).
    b.apply(BookOp::Delete(BookDelete::PrefixInclusive {
        side: Side::Buy,
        position: 2,
    }));
    assert_eq!(b.stats().bids, 2);
}

#[test]
fn delete_kind_three_clears_everything() {
    let mut b = OrderBook::default();
    b.apply(BookOp::Add(entry(Side::Buy, 0, 100.0, 1, 1)));
    b.apply(BookOp::Add(entry(Side::Sell, 0, 101.0, 1, 1)));
    b.apply(BookOp::Add(entry_with_id(Side::Buy, 1, b"ORD1")));
    b.apply(BookOp::Delete(BookDelete::ClearAll));
    assert_eq!(b.stats(), OrderBookStats::default());
    // Order-id index must be cleared too.
    assert_eq!(b.indexed_orders(), 0);
}

#[test]
fn end_of_initial_marks_book_as_observable() {
    let mut b = OrderBook::default();
    assert!(!b.is_initialised());
    b.apply(BookOp::EndOfInitial);
    assert!(b.is_initialised());
}

#[test]
fn order_id_index_tracks_position_after_inserts_and_deletes() {
    let mut b = OrderBook::default();
    b.apply(BookOp::Add(entry_with_id(Side::Buy, 0, b"O1")));
    b.apply(BookOp::Add(entry_with_id(Side::Buy, 1, b"O2")));
    b.apply(BookOp::Add(entry_with_id(Side::Buy, 0, b"O3")));
    // O1 and O2 should have been shifted to indices 1 and 2.
    assert_eq!(b.place_of(b"O1").unwrap().1, 1);
    assert_eq!(b.place_of(b"O2").unwrap().1, 2);

    b.apply(BookOp::Delete(BookDelete::Single {
        side: Side::Buy,
        position: 0,
    }));
    // O3 was at 0 → removed. O1 was at 1 → now at 0. O2 was at 2 → now at 1.
    assert!(b.place_of(b"O3").is_none());
    assert_eq!(b.place_of(b"O1").unwrap().1, 0);
    assert_eq!(b.place_of(b"O2").unwrap().1, 1);
}
