use cedro::client::commands::CommandSink;
use cedro::client::config::{ConnectionConfig, Ratio};
use cedro::client::subscription::{SubscriptionKind, SubscriptionRegistry};

fn config() -> ConnectionConfig {
    ConnectionConfig::new("10.0.0.1".to_owned(), "u".to_owned(), "p".to_owned())
}

fn ratio(v: f64) -> Ratio {
    Ratio { bits: v.to_bits() }
}

#[test]
fn defaults_are_for_production() {
    let c = config();
    assert_eq!(c.addr(), "10.0.0.1:81");
    assert_eq!(c.so_rcvbuf, 128 * 1024 * 1024);
    assert_eq!(c.frame_channel_capacity, 2 * 1024 * 1024);
    assert_eq!(c.handshake_timeout, 10_000_000_000);
    assert_eq!(c.watchdog_interval, 100_000_000);
    assert_eq!(c.backpressure_warn_ratio, ratio(0.20));
    assert_eq!(c.backpressure_panic_ratio, ratio(0.40));
    assert_eq!(c.reader_cpu_affinity, None);
    assert_eq!(c.watchdog_cpu_affinity, None);
    assert_eq!(c.software_key, "");
}

#[test]
fn every_objection_is_raised_in_order() {
    let mut c = config();
    c.backpressure_panic_ratio = ratio(0.20);
    assert_eq!(c.validate(), Err("panic ratio must exceed warn ratio"));
    c.backpressure_panic_ratio = ratio(1.01);
    assert_eq!(c.validate(), Err("backpressure_panic_ratio must be in [0,1]"));
    c.backpressure_warn_ratio = ratio(-0.01);
    assert_eq!(c.validate(), Err("backpressure_warn_ratio must be in [0,1]"));
    c.frame_channel_capacity = 0;
    assert_eq!(c.validate(), Err("frame_channel_capacity must be > 0"));
    c.so_rcvbuf = 1023;
    assert_eq!(c.validate(), Err("so_rcvbuf is unreasonably small"));
    c.host = String::new();
    assert_eq!(c.validate(), Err("host is empty"));
}

#[test]
fn ratios_are_compared_as_numbers() {
    let values = [
        -1.0, -0.0, 0.0, 5e-324, 0.2, 0.4, 0.999, 1.0, 1.0000000000000002, 2.0, f64::NAN,
        f64::INFINITY, f64::NEG_INFINITY,
    ];
    for warn in values {
        for panic in values {
            let mut c = config();
            c.backpressure_warn_ratio = ratio(warn);
            c.backpressure_panic_ratio = ratio(panic);
            let unit = 0.0..=1.0;
            let fine = unit.contains(&warn) && unit.contains(&panic) && panic > warn;
            assert_eq!(c.validate().is_ok(), fine, "{warn} {panic}");
        }
    }
}

#[test]
fn every_command_is_one_line() {
    let mut s = CommandSink::new();
    s.unsubscribe_quote("A");
    s.subscribe_book_aggregated("A", false);
    s.unsubscribe_book_aggregated("A");
    s.unsubscribe_trades("A");
    s.subscribe_trades("A", Some(0));
    s.subscribe_trades("A", Some(u32::MAX));
    s.list_market("BMF", u16::MAX, Some(0));
    assert_eq!(
        s.take_pending(),
        "USQ A\nSAB A\nUAB A\nUQT A\nGQT A S 0\nGQT A S 4294967295\nMQC BMF T 65535 S 0\n"
    );
    assert_eq!(s.take_pending(), "");
}

#[test]
fn subscriptions_come_and_go() {
    let mut r = SubscriptionRegistry::new();
    let kinds = [
        SubscriptionKind::Quote,
        SubscriptionKind::BookDetailed,
        SubscriptionKind::BookAggregated,
        SubscriptionKind::Trades,
    ];
    for k in kinds {
        assert!(r.add(k, "A"));
        assert!(r.add(k, "B"));
    }
    assert_eq!(r.len(), 8);
    assert!(r.remove(SubscriptionKind::Quote, "A"));
    assert!(!r.remove(SubscriptionKind::Quote, "A"));
    assert_eq!(r.len(), 7);
    assert_eq!(r.snapshot_by_kind(SubscriptionKind::Quote), ["B"]);
    for k in &kinds[1..] {
        let mut t = r.snapshot_by_kind(*k);
        t.sort();
        assert_eq!(t, ["A", "B"]);
    }
    assert!(r.add(SubscriptionKind::Quote, "A"));
    assert_eq!(r.snapshot().len(), 8);
}

#[test]
fn subscription_kinds_have_names() {
    assert_eq!(SubscriptionKind::Quote.as_str(), "quote");
    assert_eq!(SubscriptionKind::BookDetailed.as_str(), "book_detailed");
    assert_eq!(SubscriptionKind::BookAggregated.as_str(), "book_aggregated");
    assert_eq!(SubscriptionKind::Trades.as_str(), "trades");
}
