use bytes::Bytes;
use cedro::decimal::Decimal;
use cedro::protocol::parser::ParseError;
use cedro::protocol::parser::vap::parse;
use cedro::protocol::types::{ProtocolMessage, VapEntry};

/// The value of a number's text.
fn num(d: &Decimal) -> f64 {
    d.as_str().parse().unwrap()
}

fn parse_vap(b: &'static [u8]) -> VapEntry {
    match parse(Bytes::from_static(b)).unwrap() {
        ProtocolMessage::Vap(e) => e,
        _ => unreachable!(),
    }
}

#[test]
fn no_period_data_line() {
    // 15 fields total: ticker + price + 8 + period + 4. Period token = 0.
    let e = parse_vap(b"VAP:PETR4:32.50:5:1500:3:900:1:300:2:600:0:1:100:0:0");
    assert_eq!(e.ticker.as_ref(), b"PETR4");
    assert!((num(&e.price) - 32.50).abs() < 1e-9);
    assert!((num(&e.buyer_trades) - 5.0).abs() < 1e-9);
    assert!((num(&e.buyer_volume) - 1500.0).abs() < 1e-9);
    assert!(e.period_minutes.is_none());
    assert!((num(&e.rlp_trades) - 1.0).abs() < 1e-9);
}

#[test]
fn period_data_line() {
    // Period = 5 minutes.
    let e = parse_vap(b"VAP:PETR4:32.50:5:1500:3:900:1:300:2:600:5:1:100:0:0");
    assert_eq!(e.period_minutes, Some(5));
}

#[test]
fn terminator_no_period() {
    let e = parse_vap(b"VAP:PETR4:E");
    assert_eq!(e.ticker.as_ref(), b"PETR4");
    assert!(e.period_minutes.is_none());
}

#[test]
fn terminator_with_period() {
    let e = parse_vap(b"VAP:PETR4:E:5");
    assert_eq!(e.ticker.as_ref(), b"PETR4");
    assert_eq!(e.period_minutes, Some(5));
}

#[test]
fn auction_and_rlp_counters_are_parsed() {
    // Trailing fields ordered: rlp_trades, rlp_volume, auction_trades, auction_volume.
    let e = parse_vap(b"VAP:WDOZ25:5500:10:5000:8:4000:0:0:0:0:0:2:1000:7:7000");
    assert!((num(&e.rlp_trades) - 2.0).abs() < 1e-9);
    assert!((num(&e.rlp_volume) - 1000.0).abs() < 1e-9);
    assert!((num(&e.auction_trades) - 7.0).abs() < 1e-9);
    assert!((num(&e.auction_volume) - 7000.0).abs() < 1e-9);
}

#[test]
fn rejects_short_frame() {
    let err = parse(Bytes::from_static(b"VAP:PETR4:32.50:5:1500")).unwrap_err();
    assert!(matches!(err, ParseError::MissingField { .. }));
}
