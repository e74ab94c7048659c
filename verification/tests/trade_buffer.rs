use bytes::Bytes;
use cedro::decimal::Decimal;
use cedro::market::trade::{TradeBuffer, TradeRecord};
use cedro::protocol::enums::{TradeAggressor, TradeCondition};
use cedro::protocol::types::Trade;

/// A number as the feed would write it.
fn dec(v: f64) -> Decimal {
    Decimal::new(Bytes::from(v.to_string().into_bytes())).unwrap()
}

fn rec(id: &'static [u8], price: f64) -> TradeRecord {
    TradeRecord {
        time_hhmmss: 1,
        price: dec(price),
        quantity: 1,
        trade_id: Bytes::from_static(id),
        broker_buy_id: 0,
        broker_sell_id: 0,
        condition: TradeCondition::NotDirect,
        aggressor: TradeAggressor::Undefined,
    }
}

#[test]
fn push_and_snapshot_preserve_order() {
    let mut buf = TradeBuffer::new(10);
    buf.push(Bytes::from_static(b"PETR4"), rec(b"T1", 1.0));
    buf.push(Bytes::from_static(b"PETR4"), rec(b"T2", 2.0));
    buf.push(Bytes::from_static(b"PETR4"), rec(b"T3", 3.0));
    let snap = buf.snapshot(b"PETR4", 10);
    assert_eq!(snap.len(), 3);
    assert_eq!(snap[0].trade_id.as_ref(), b"T1");
    assert_eq!(snap[2].trade_id.as_ref(), b"T3");
}

#[test]
fn cap_evicts_oldest_record() {
    let mut buf = TradeBuffer::new(3);
    for i in 0..5_u32 {
        let id_str = format!("T{i}");
        let id: &'static [u8] = Box::leak(id_str.into_bytes().into_boxed_slice());
        buf.push(Bytes::from_static(b"PETR4"), rec(id, f64::from(i)));
    }
    let snap = buf.snapshot(b"PETR4", 10);
    // Oldest two evicted; ordering preserved.
    assert_eq!(snap.len(), 3);
    assert_eq!(snap[0].trade_id.as_ref(), b"T2");
    assert_eq!(snap[2].trade_id.as_ref(), b"T4");
}

#[test]
fn snapshot_limit_returns_most_recent_n() {
    let mut buf = TradeBuffer::new(10);
    for i in 0..6_u32 {
        let id_str = format!("T{i}");
        let id: &'static [u8] = Box::leak(id_str.into_bytes().into_boxed_slice());
        buf.push(Bytes::from_static(b"PETR4"), rec(id, f64::from(i)));
    }
    let snap = buf.snapshot(b"PETR4", 3);
    assert_eq!(snap.len(), 3);
    // Last three: T3, T4, T5
    assert_eq!(snap[0].trade_id.as_ref(), b"T3");
    assert_eq!(snap[2].trade_id.as_ref(), b"T5");
}

#[test]
fn remove_handles_present_and_absent_ids() {
    let mut buf = TradeBuffer::new(10);
    buf.push(Bytes::from_static(b"PETR4"), rec(b"T1", 1.0));
    buf.push(Bytes::from_static(b"PETR4"), rec(b"T2", 2.0));
    assert!(buf.remove(b"PETR4", b"T1"));
    assert!(!buf.remove(b"PETR4", b"T999"));
    let snap = buf.snapshot(b"PETR4", 10);
    assert_eq!(snap.len(), 1);
    assert_eq!(snap[0].trade_id.as_ref(), b"T2");
}

#[test]
fn clear_drops_every_trade_for_ticker() {
    let mut buf = TradeBuffer::new(10);
    buf.push(Bytes::from_static(b"PETR4"), rec(b"T1", 1.0));
    buf.push(Bytes::from_static(b"PETR4"), rec(b"T2", 2.0));
    buf.push(Bytes::from_static(b"VALE3"), rec(b"V1", 10.0));
    buf.clear(b"PETR4");
    assert_eq!(buf.snapshot(b"PETR4", 10).len(), 0);
    assert_eq!(buf.snapshot(b"VALE3", 10).len(), 1);
}

#[test]
fn from_trait_lifts_protocol_trade_into_record() {
    let t = Trade {
        operation_code: b'A',
        time_hhmmss: 12_3000,
        price: dec(32.5),
        broker_buy_id: 1,
        broker_sell_id: 2,
        quantity: 100,
        trade_id: Bytes::from_static(b"T1"),
        request_id: None,
        condition: TradeCondition::Direct,
        aggressor: TradeAggressor::Buyer,
        original_conditions: Bytes::from_static(b"0"),
    };
    let r: TradeRecord = (&t).into();
    assert_eq!(r.trade_id.as_ref(), b"T1");
    assert_eq!(r.condition, TradeCondition::Direct);
    assert_eq!(r.aggressor, TradeAggressor::Buyer);
}
