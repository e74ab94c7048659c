use bytes::Bytes;
use cedro::client::commands::CommandSink;
use cedro::client::subscription::{SubscriptionKind, SubscriptionRegistry};
use cedro::fanout::types::Kind;
use cedro::ingest::bootstrap::{discovery_step, resolve, subscribe_batch};
use cedro::ingest::catalog::Catalog;
use cedro::ingest::dispatch::{build_staged_trade, process_frame, Effects, Engine};
use cedro::market::engine::BookEngine;
use cedro::protocol::frame::FrameKind;
use cedro::protocol::parser::ParseError;
use cedro::protocol::types::QuoteFieldValue;

fn feed(engine: &mut Engine, catalog: &mut Catalog, frame: &'static [u8]) -> Effects {
    let kind = if frame.starts_with(b"T:") { FrameKind::Bang } else { FrameKind::Newline };
    process_frame(engine, catalog, kind, Bytes::from_static(frame)).unwrap()
}

fn published(e: &Effects) -> Option<(Kind, Vec<u8>, Vec<u8>)> {
    e.publish.as_ref().map(|(k, p)| (k.kind, k.ticker.to_vec(), p.to_vec()))
}

#[test]
fn quote_frames_update_the_quote_and_are_published() {
    let mut engine = Engine::new(4, 10);
    let mut catalog = Catalog::new();
    let e = feed(&mut engine, &mut catalog, b"T:PETR4:101758:2:59.95:9:354600");
    assert_eq!(published(&e), Some((Kind::Quote, b"PETR4".to_vec(), b"q".to_vec())));
    assert!(e.store.is_none());
    engine.quote.with_state(b"PETR4", |s| {
        let state = s.unwrap();
        assert_eq!(state.version, 1);
        assert_eq!(state.get(9), Some(&QuoteFieldValue::Int(354_600)));
    });
    assert!(engine.book.is_empty());
    assert_eq!(engine.trades.known_tickers(), 0);
}

#[test]
fn book_frames_update_the_book_and_are_published() {
    let mut engine = Engine::new(4, 10);
    let mut catalog = Catalog::new();
    let e = feed(&mut engine, &mut catalog, b"B:PETR4:A:0:A:99.99:100:131:11041005");
    assert_eq!(published(&e), Some((Kind::Book, b"PETR4".to_vec(), b"b".to_vec())));
    engine.book.with_book(b"PETR4", |b| assert_eq!(b.unwrap().stats().bids, 1));
}

#[test]
fn trade_frames_are_stored_and_taken_back() {
    let mut engine = Engine::new(4, 10);
    let mut catalog = Catalog::new();
    let e = feed(&mut engine, &mut catalog, b"V:PETR4:A:155613:43.01:239:354:100:T1:1:A:0");
    assert_eq!(published(&e), Some((Kind::Trade, b"PETR4".to_vec(), b"t".to_vec())));
    let (ticker, trade) = e.store.unwrap();
    assert_eq!(ticker.as_ref(), b"PETR4");
    assert_eq!(engine.trades.len_for(b"PETR4"), 1);

    let staged = build_staged_trade(&ticker, &trade, Some(7)).unwrap();
    assert_eq!(staged.asset_id, 7);
    assert_eq!(staged.price.as_str(), "43.01");
    assert_eq!(staged.amount, 100);
    assert_eq!(staged.buyer_id, Some(239));
    assert_eq!(staged.seller_id, Some(354));
    assert_eq!(staged.aggressor_side, Some(1));
    assert_eq!(staged.trade_id.as_deref(), Some("T1"));
    assert!(staged.is_direct);

    feed(&mut engine, &mut catalog, b"V:PETR4:A:155614:43.02:1:2:5:T2:0:V:0");
    let e = feed(&mut engine, &mut catalog, b"V:PETR4:D:T1");
    assert!(e.publish.is_none());
    let snap = engine.trades.snapshot(b"PETR4", 10);
    assert_eq!(snap.len(), 1);
    assert_eq!(snap[0].trade_id.as_ref(), b"T2");

    let e = feed(&mut engine, &mut catalog, b"V:PETR4:R");
    assert!(e.publish.is_none() && e.store.is_none());
    assert_eq!(engine.trades.len_for(b"PETR4"), 0);
    let e = feed(&mut engine, &mut catalog, b"V:PETR4:E");
    assert!(e.publish.is_none() && e.store.is_none());
}

#[test]
fn staged_trades_at_the_limits() {
    let mut engine = Engine::new(1, 1);
    let mut catalog = Catalog::new();
    let e = feed(
        &mut engine,
        &mut catalog,
        b"V:X:A:1:1:4294967295:2147483647:18446744073709551615:\xff:0:I:0",
    );
    let (ticker, trade) = e.store.unwrap();
    let staged = build_staged_trade(&ticker, &trade, Some(1)).unwrap();
    assert_eq!(staged.amount, i64::MAX);
    assert_eq!(staged.buyer_id, None);
    assert_eq!(staged.seller_id, Some(i32::MAX));
    assert_eq!(staged.aggressor_side, None);
    assert_eq!(staged.trade_id, None);
    assert!(!staged.is_direct);
    assert!(build_staged_trade(&ticker, &trade, None).is_none());
    assert!(build_staged_trade(&Bytes::from_static(b"\xff"), &trade, Some(1)).is_none());
}

#[test]
fn lists_fill_the_catalog() {
    let mut engine = Engine::new(1, 1);
    let mut catalog = Catalog::new();
    feed(&mut engine, &mut catalog, b"C:Bovespa:PETR4");
    feed(&mut engine, &mut catalog, b"C:BMF:WDOZ25");
    feed(&mut engine, &mut catalog, b"C:BOVESPA:E");
    feed(&mut engine, &mut catalog, b"C:BMF:\xff");
    feed(&mut engine, &mut catalog, b"G:BOVESPA:3:XP INVESTIMENTOS:33:1");
    let mut symbols = catalog.symbols();
    symbols.sort();
    assert_eq!(symbols, ["PETR4", "WDOZ25"]);
    let books = catalog.book_universe();
    assert!(books.contains("PETR4") && !books.contains("WDOZ25"));
    let broker = catalog.broker("33").unwrap();
    assert_eq!(broker.code, "3");
    assert_eq!(broker.name, "XP INVESTIMENTOS");
    assert!(broker.active);
    assert!(catalog.broker("3").is_none());
}

#[test]
fn frames_that_do_not_parse_change_nothing() {
    let mut engine = Engine::new(1, 1);
    let mut catalog = Catalog::new();
    let err = process_frame(
        &mut engine,
        &mut catalog,
        FrameKind::Newline,
        Bytes::from_static(b"X:what"),
    )
    .unwrap_err();
    assert_eq!(err, ParseError::UnknownHeader(Bytes::from_static(b"X:what")));
    assert!(engine.quote.is_empty());
    assert!(catalog.symbols().is_empty());
}

#[test]
fn discovery_asks_for_everything_once() {
    let mut sink = CommandSink::new();
    let mut pauses = Vec::new();
    let mut i = 0;
    while let Some(pause) = discovery_step(i, &mut sink) {
        pauses.push(pause);
        i += 1;
    }
    assert_eq!(
        sink.take_pending(),
        "GPN BOVESPA\nMQC Bovespa 1\nMQC Bovespa 2\nMQC Bovespa 3\nMQC Bovespa 10\n\
         MQC Bovespa 13\nMQC Bovespa 20\nMQC BMF T 7 S 130\nMQC BMF T 7 S 60\n\
         MQC BMF T 7 S 50\nMQC BMF T 7 S 40\nMQC BMF T 7 S 30\nMQC BMF T 7 S 20\n\
         MQC BMF T 2 S 150\n"
    );
    assert_eq!(pauses.len(), 15);
    assert_eq!(pauses[0], 500_000_000);
    assert_eq!(pauses[1], 50_000_000);
    assert_eq!(pauses[14], 20_000_000_000);
}

#[test]
fn every_ticker_is_subscribed_to() {
    let mut catalog = Catalog::new();
    catalog.insert_symbol("Bovespa", "PETR4");
    catalog.insert_symbol("BMF", "WDOZ25");
    let mut book = BookEngine::new(2);
    let (tickers, universe) = resolve(&catalog, &mut book);
    assert_eq!(universe.total, 2);
    assert_eq!(universe.book_set.len(), 1);
    assert!(book.is_allowed(b"PETR4"));
    assert!(!book.is_allowed(b"WDOZ25"));

    let mut sink = CommandSink::new();
    let mut registry = SubscriptionRegistry::new();
    let (next, pause) =
        subscribe_batch(&tickers, 0, &universe.book_set, &mut sink, &mut registry);
    assert_eq!(next, 2);
    assert_eq!(pause, None);
    let lines = sink.take_pending();
    assert!(lines.contains("SQT PETR4\nBQT PETR4\nGQT PETR4 S 50\n"));
    assert!(lines.contains("SQT WDOZ25\nGQT WDOZ25 S 50\n"));
    assert_eq!(registry.len(), 5);
    assert_eq!(registry.snapshot_by_kind(SubscriptionKind::BookDetailed), ["PETR4"]);
}

#[test]
fn batches_pause_when_full() {
    let tickers: Vec<String> = (0..1001).map(|i| format!("T{i}")).collect();
    let books = Catalog::new().book_universe();
    let mut sink = CommandSink::new();
    let mut registry = SubscriptionRegistry::new();
    let (a, p1) = subscribe_batch(&tickers, 0, &books, &mut sink, &mut registry);
    assert_eq!((a, p1), (500, Some(1_000_000_000)));
    let (b, p2) = subscribe_batch(&tickers, a, &books, &mut sink, &mut registry);
    assert_eq!((b, p2), (1000, Some(1_000_000_000)));
    let (c, p3) = subscribe_batch(&tickers, b, &books, &mut sink, &mut registry);
    assert_eq!((c, p3), (1001, None));
    assert_eq!(registry.len(), 2002);
    assert_eq!(sink.take_pending().lines().count(), 2002);
}
