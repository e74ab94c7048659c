use bytes::Bytes;
use cedro::fanout::coalescer::Coalescer;
use cedro::fanout::publisher::{outcome, plan, FanoutError, NoopSink};
use cedro::fanout::types::{Kind, PublishKey};

const MS: u128 = 1_000_000;

fn key(kind: Kind, t: &'static [u8]) -> PublishKey {
    PublishKey::new(kind, Bytes::from_static(t))
}

/// Submits, and publishes at once what is not held back.
fn submit(c: &mut Coalescer, sink: &mut NoopSink, k: PublishKey, payload: &'static [u8]) {
    if let Some((k, p)) = c.submit(k, Bytes::from_static(payload)) {
        sink.publish(k, p).unwrap();
    }
}

fn flush(c: &mut Coalescer, sink: &mut NoopSink) {
    for (k, p) in c.flush_once() {
        sink.publish(k, p).unwrap();
    }
}

#[test]
fn nats_subject_uses_dot_separators() {
    let k = PublishKey::new(Kind::Quote, Bytes::from_static(b"PETR4"));
    assert_eq!(k.nats_subject(), "market.quote.PETR4");
}

#[test]
fn redis_key_uses_colon_separators() {
    let k = PublishKey::new(Kind::Book, Bytes::from_static(b"PETR4"));
    assert_eq!(k.redis_key(), "market:book:PETR4");
}

#[test]
fn kind_strings_are_lowercase() {
    assert_eq!(Kind::Quote.as_str(), "quote");
    assert_eq!(Kind::Book.as_str(), "book");
    assert_eq!(Kind::Trade.as_str(), "trade");
}

#[test]
fn zero_window_kind_publishes_immediately() {
    let mut sink = NoopSink::new();
    let mut c = Coalescer::new();
    c.set_window(Kind::Trade, 0);

    submit(&mut c, &mut sink, key(Kind::Trade, b"PETR4"), b"t1");
    submit(&mut c, &mut sink, key(Kind::Trade, b"PETR4"), b"t2");

    let calls = sink.take_calls();
    assert_eq!(calls.len(), 2);
    assert_eq!(calls[1].1.as_ref(), b"t2");
}

#[test]
fn coalesces_consecutive_updates_to_same_key() {
    let mut sink = NoopSink::new();
    let mut c = Coalescer::new();

    submit(&mut c, &mut sink, key(Kind::Quote, b"PETR4"), b"v1");
    submit(&mut c, &mut sink, key(Kind::Quote, b"PETR4"), b"v2");
    submit(&mut c, &mut sink, key(Kind::Quote, b"PETR4"), b"v3");
    flush(&mut c, &mut sink);

    let calls = sink.take_calls();
    assert_eq!(calls.len(), 1);
    assert_eq!(calls[0].1.as_ref(), b"v3");
}

#[test]
fn distinct_keys_are_published_independently() {
    let mut sink = NoopSink::new();
    let mut c = Coalescer::new();

    submit(&mut c, &mut sink, key(Kind::Quote, b"PETR4"), b"p");
    submit(&mut c, &mut sink, key(Kind::Quote, b"VALE3"), b"v");
    submit(&mut c, &mut sink, key(Kind::Book, b"PETR4"), b"b");
    flush(&mut c, &mut sink);

    let calls = sink.take_calls();
    assert_eq!(calls.len(), 3);
    assert!(calls.contains(&(key(Kind::Quote, b"PETR4"), Bytes::from_static(b"p"))));
    assert!(calls.contains(&(key(Kind::Quote, b"VALE3"), Bytes::from_static(b"v"))));
    assert!(calls.contains(&(key(Kind::Book, b"PETR4"), Bytes::from_static(b"b"))));
}

#[test]
fn flush_clears_pending_bucket() {
    let mut sink = NoopSink::new();
    let mut c = Coalescer::new();

    submit(&mut c, &mut sink, key(Kind::Quote, b"PETR4"), b"v1");
    flush(&mut c, &mut sink);
    flush(&mut c, &mut sink);

    let calls = sink.take_calls();
    assert_eq!(calls.len(), 1);
}

#[test]
fn noop_sink_records_every_call() {
    let mut sink = NoopSink::new();
    sink.publish(key(Kind::Quote, b"PETR4"), Bytes::from_static(b"payload-1")).unwrap();
    sink.publish(key(Kind::Book, b"VALE3"), Bytes::from_static(b"payload-2")).unwrap();

    let calls = sink.take_calls();
    assert_eq!(calls.len(), 2);
    assert_eq!(calls[0].0.ticker.as_ref(), b"PETR4");
    assert_eq!(calls[0].1.as_ref(), b"payload-1");
    assert_eq!(calls[1].0.kind, Kind::Book);
}

#[test]
fn noop_sink_take_calls_drains() {
    let mut sink = NoopSink::new();
    sink.publish(key(Kind::Trade, b"PETR4"), Bytes::from_static(b"x")).unwrap();
    assert_eq!(sink.take_calls().len(), 1);
    assert_eq!(sink.take_calls().len(), 0);
}

#[test]
fn windows_and_tick() {
    let mut c = Coalescer::new();
    assert_eq!(c.window_for(Kind::Quote), 50 * MS);
    assert_eq!(c.window_for(Kind::Book), 100 * MS);
    assert_eq!(c.window_for(Kind::Trade), 0);
    assert_eq!(c.tick(), 50 * MS);
    c.set_window(Kind::Quote, 10 * MS);
    assert_eq!(c.tick(), 10 * MS);
    c.set_window(Kind::Trade, 3 * MS);
    assert_eq!(c.min_nonzero_window(), Some(3 * MS));
    c.set_window(Kind::Quote, 0);
    c.set_window(Kind::Book, 0);
    c.set_window(Kind::Trade, 0);
    assert_eq!(c.min_nonzero_window(), None);
    assert_eq!(c.tick(), 50 * MS);
}

#[test]
fn unreadable_tickers_get_replacement_characters() {
    let k = key(Kind::Trade, b"A\xffB");
    assert_eq!(k.nats_subject(), "market.trade.A\u{fffd}B");
    assert_eq!(k.redis_key(), "market:trade:A\u{fffd}B");
}

#[test]
fn plan_with_and_without_time_to_live() {
    let k = key(Kind::Quote, b"PETR4");
    let p = plan(&k, Bytes::from_static(b"q"), Some(3600));
    assert_eq!(p.subject, "market.quote.PETR4");
    assert_eq!(p.payload.as_ref(), b"q");
    let words: Vec<&[u8]> = p.store.iter().map(|w| w.as_ref()).collect();
    assert_eq!(words, [&b"SET"[..], b"market:quote:PETR4", b"q", b"EX", b"3600"]);

    let p = plan(&k, Bytes::from_static(b"q"), None);
    assert_eq!(p.store.len(), 3);
}

#[test]
fn outcome_tells_the_live_update_first() {
    assert_eq!(outcome(Ok(()), Ok(())), Ok(()));
    assert_eq!(
        outcome(Err("n".to_owned()), Err("r".to_owned())),
        Err(FanoutError::Nats("n".to_owned()))
    );
    assert_eq!(outcome(Ok(()), Err("r".to_owned())), Err(FanoutError::Redis("r".to_owned())));
}

#[test]
fn fanout_errors_have_messages() {
    assert_eq!(FanoutError::Nats("x".to_owned()).message(), "NATS error: x");
    assert_eq!(FanoutError::NatsConnect("x".to_owned()).message(), "NATS connection error: x");
    assert_eq!(FanoutError::Redis("x".to_owned()).message(), "Redis error: x");
    assert_eq!(FanoutError::Config("x").message(), "invalid configuration: x");
}
