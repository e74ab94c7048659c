use ahash::AHashSet;
use axum::http::{header, HeaderMap, HeaderValue};
use bytes::Bytes;
use cedro::api::auth::{extract_bearer, parse_bearer, require_token};
use cedro::api::config::{parse_cors_origins, parse_tokens, ApiConfig};
use cedro::api::content_neg::Accept;
use cedro::api::error::ApiError;
use cedro::api::handlers::{
    batch_entries, compute_etag, default_limit, error_body, finish_batch, finish_single, health_body,
    prepare_batch, prepare_single, prepare_trades, render_etag, wrap_batch, BatchQuery,
    TradesQuery,
};
use cedro::api::snapshot_store::{SnapshotKind, SnapshotStore};
use cedro::api::ws::SubscribeChannel;
use cedro::fanout::types::{Kind, PublishKey};
use cedro::text::hex;

fn auth_hdr(value: &str) -> HeaderMap {
    let mut h = HeaderMap::new();
    h.insert(header::AUTHORIZATION, HeaderValue::from_str(value).unwrap());
    h
}

fn accept_hdr(value: &str) -> HeaderMap {
    let mut h = HeaderMap::new();
    h.insert(header::ACCEPT, HeaderValue::from_str(value).unwrap());
    h
}

fn cfg_with(token: &str) -> ApiConfig {
    let mut c = ApiConfig::default();
    let mut s = AHashSet::new();
    s.insert(token.to_owned());
    c.valid_tokens = s;
    c
}

#[test]
fn extracts_a_well_formed_bearer_token() {
    let token = extract_bearer(&auth_hdr("Bearer abc123")).unwrap();
    assert_eq!(token, "abc123");
}

#[test]
fn accepts_lowercase_bearer_keyword() {
    assert_eq!(extract_bearer(&auth_hdr("bearer xyz")).unwrap(), "xyz");
}

#[test]
fn rejects_missing_header() {
    let err = extract_bearer(&HeaderMap::new()).unwrap_err();
    assert!(matches!(err, ApiError::MissingAuth));
}

#[test]
fn rejects_non_bearer_schemes() {
    let err = extract_bearer(&auth_hdr("Basic dXNlcjpwYXNz")).unwrap_err();
    assert!(matches!(err, ApiError::InvalidToken));
}

#[test]
fn rejects_empty_token() {
    let err = extract_bearer(&auth_hdr("Bearer ")).unwrap_err();
    assert!(matches!(err, ApiError::InvalidToken));
}

#[test]
fn require_token_accepts_known_token() {
    let cfg = cfg_with("good");
    assert_eq!(require_token(&auth_hdr("Bearer good"), &cfg).unwrap(), "good");
}

#[test]
fn require_token_rejects_unknown_token() {
    let cfg = cfg_with("good");
    let err = require_token(&auth_hdr("Bearer bad"), &cfg).unwrap_err();
    assert!(matches!(err, ApiError::InvalidToken));
}

#[test]
fn tokens_lose_the_space_around_them() {
    assert_eq!(extract_bearer(&auth_hdr("  Bearer   abc \t")).unwrap(), "abc");
    assert_eq!(parse_bearer("Bearer a b").unwrap(), "a b");
    assert!(parse_bearer("BEARER abc").is_none());
    assert!(parse_bearer("Bearer\u{a0}abc").is_none());
    assert_eq!(parse_bearer("\u{3000}Bearer abc\u{2009}").unwrap(), "abc");
}

#[test]
fn tokens_that_are_not_visible_are_refused() {
    let mut h = HeaderMap::new();
    h.insert(header::AUTHORIZATION, HeaderValue::from_bytes(b"Bearer \xe9").unwrap());
    assert!(matches!(extract_bearer(&h).unwrap_err(), ApiError::InvalidToken));
    let mut h = HeaderMap::new();
    h.insert(header::ACCEPT, HeaderValue::from_bytes(b"application/msgpack\xe9").unwrap());
    assert_eq!(Accept::from_headers(&h), Accept::Json);
}

#[test]
fn defaults_to_json_when_no_header() {
    assert_eq!(Accept::from_headers(&HeaderMap::new()), Accept::Json);
}

#[test]
fn defaults_to_json_for_wildcard() {
    assert_eq!(Accept::from_headers(&accept_hdr("*/*")), Accept::Json);
}

#[test]
fn detects_messagepack() {
    assert_eq!(Accept::from_headers(&accept_hdr("application/msgpack")), Accept::MessagePack);
    assert_eq!(Accept::from_headers(&accept_hdr("application/x-msgpack")), Accept::MessagePack);
}

#[test]
fn unknown_accept_falls_back_to_json() {
    assert_eq!(Accept::from_headers(&accept_hdr("text/yaml")), Accept::Json);
}

#[test]
fn forms_have_media_types() {
    assert_eq!(Accept::Json.content_type(), "application/json");
    assert_eq!(Accept::MessagePack.content_type(), "application/msgpack");
    assert_eq!(Accept::Json.header_value(), HeaderValue::from_static("application/json"));
    assert_eq!(
        Accept::MessagePack.header_value(),
        HeaderValue::from_static("application/msgpack")
    );
    assert_eq!(Accept::from_text("text/html, application/msgpack;q=0.5"), Accept::MessagePack);
}

#[test]
fn etag_is_stable_for_identical_payload() {
    assert_eq!(compute_etag(b"hello"), compute_etag(b"hello"));
    assert_ne!(compute_etag(b"hello"), compute_etag(b"world"));
}

#[test]
fn etag_is_hexadecimal_in_quotes() {
    assert_eq!(render_etag(0), "\"0\"");
    assert_eq!(render_etag(0xdead_beef), "\"deadbeef\"");
    assert_eq!(render_etag(u64::MAX), "\"ffffffffffffffff\"");
}

#[test]
fn hex_round_trip_matches_expected_bytes() {
    assert_eq!(hex(&[0x00, 0xff, 0xab]), "00ffab");
}

#[test]
fn key_uses_fanout_format() {
    assert_eq!(SnapshotStore::key(SnapshotKind::Quote, "PETR4"), "market:quote:PETR4");
    assert_eq!(SnapshotStore::key(SnapshotKind::Book, "PETR4"), "market:book:PETR4");
    assert_eq!(SnapshotStore::key(SnapshotKind::Trade, "PETR4"), "market:trade:PETR4");
}

#[test]
fn kind_strings_match_fanout_crate() {
    assert_eq!(SnapshotKind::Quote.as_str(), "quote");
    assert_eq!(SnapshotKind::Book.as_str(), "book");
    assert_eq!(SnapshotKind::Trade.as_str(), "trade");
}

#[test]
fn reads_look_where_writes_went() {
    let k = PublishKey::new(Kind::Trade, Bytes::from_static(b"PETR4"));
    assert_eq!(SnapshotStore::key(SnapshotKind::Trade, "PETR4"), k.redis_key());
    assert_eq!(format!("{}PETR4", SubscribeChannel::Trade.nats_prefix()), k.nats_subject());
    let keys = SnapshotStore::batch_keys(
        SnapshotKind::Book,
        &vec!["A".to_owned(), "B".to_owned()],
    );
    assert_eq!(keys, ["market:book:A", "market:book:B"]);
}

#[test]
fn channels_have_names() {
    assert_eq!(SubscribeChannel::Quote.as_str(), "quote");
    assert_eq!(SubscribeChannel::Book.as_str(), "book");
    assert_eq!(SubscribeChannel::Trade.as_str(), "trade");
    assert_eq!(SubscribeChannel::Quote.nats_prefix(), "market.quote.");
    assert_eq!(SubscribeChannel::Book.nats_prefix(), "market.book.");
}

#[test]
fn errors_have_status_code_and_message() {
    let cases = [
        (ApiError::MissingAuth, 401, "missing_auth", "missing Authorization header"),
        (ApiError::InvalidToken, 401, "invalid_token", "invalid token"),
        (ApiError::RateLimited, 429, "rate_limited", "rate limit exceeded"),
        (
            ApiError::TickerNotFound("A\"B".to_owned()),
            404,
            "ticker_not_found",
            "ticker \"A\\\"B\" not known",
        ),
        (
            ApiError::BookNotAvailable,
            404,
            "book_not_available",
            "book not available for this market",
        ),
        (ApiError::Redis("down".to_owned()), 500, "internal", "Redis error: down"),
        (ApiError::BadRequest("x"), 400, "bad_request", "invalid request: x"),
        (ApiError::Internal("json"), 500, "internal", "internal error: json"),
    ];
    for (e, status, code, message) in cases {
        assert_eq!(e.status(), status);
        assert_eq!(e.code(), code);
        assert_eq!(e.message(), message);
    }
    assert_eq!(
        error_body(&ApiError::InvalidToken).unwrap(),
        br#"{"code":"invalid_token","message":"invalid token"}"#
    );
    assert_eq!(health_body(), r#"{"status":"ok"}"#);
}

#[test]
fn single_snapshots() {
    let cfg = cfg_with("good");
    assert_eq!(prepare_single(&auth_hdr("Bearer good"), &cfg).unwrap(), Accept::Json);
    assert!(matches!(
        prepare_single(&HeaderMap::new(), &cfg).unwrap_err(),
        ApiError::MissingAuth
    ));
    let reply = finish_single(
        SnapshotKind::Quote,
        "PETR4".to_owned(),
        Accept::MessagePack,
        Some(Bytes::from_static(b"payload")),
    )
    .unwrap();
    assert_eq!(reply.accept, Accept::MessagePack);
    assert_eq!(reply.cache_control, "max-age=1");
    assert_eq!(reply.etag, compute_etag(b"payload"));
    assert_eq!(reply.body.as_ref(), b"payload");
    let err =
        finish_single(SnapshotKind::Quote, "X".to_owned(), Accept::Json, None).unwrap_err();
    assert!(matches!(err, ApiError::TickerNotFound(t) if t == "X"));
    let err =
        finish_single(SnapshotKind::Trade, "X".to_owned(), Accept::Json, None).unwrap_err();
    assert!(matches!(err, ApiError::TickerNotFound(t) if t == "X"));
    let err = finish_single(SnapshotKind::Book, "X".to_owned(), Accept::Json, None).unwrap_err();
    assert!(matches!(err, ApiError::BookNotAvailable));
}

#[test]
fn trades_queries_are_checked() {
    let cfg = cfg_with("good");
    let h = auth_hdr("Bearer good");
    let ask = |limit: u32, since: Option<&str>| {
        prepare_trades(&h, &cfg, &TradesQuery { limit, since: since.map(str::to_owned) })
    };
    assert_eq!(default_limit(), 50);
    assert_eq!(ask(1, None).unwrap(), Accept::Json);
    assert_eq!(ask(1000, None).unwrap(), Accept::Json);
    for limit in [0, 1001] {
        match ask(limit, None).unwrap_err() {
            ApiError::BadRequest(m) => assert_eq!(m, "limit must be in 1..=1000"),
            other => panic!("expected BadRequest, got {other:?}"),
        }
    }
    match ask(0, Some("2024-01-01")).unwrap_err() {
        ApiError::BadRequest(m) => assert!(m.starts_with("historical range queries")),
        other => panic!("expected BadRequest, got {other:?}"),
    }
    let q = TradesQuery { limit: 0, since: None };
    assert!(matches!(
        prepare_trades(&HeaderMap::new(), &cfg, &q).unwrap_err(),
        ApiError::MissingAuth
    ));
}

#[test]
fn batch_queries_are_checked() {
    let cfg = cfg_with("good");
    let h = auth_hdr("Bearer good");
    let ask = |tickers: &str| prepare_batch(&h, &cfg, &BatchQuery { tickers: tickers.to_owned() });
    let (accept, tickers) = ask(" A ,,B,\u{2003}C").unwrap();
    assert_eq!(accept, Accept::Json);
    assert_eq!(tickers, ["A", "B", "C"]);
    match ask(" , ,").unwrap_err() {
        ApiError::BadRequest(m) => assert_eq!(m, "tickers list is empty"),
        other => panic!("expected BadRequest, got {other:?}"),
    }
    let many = vec!["X"; 500].join(",");
    assert_eq!(ask(&many).unwrap().1.len(), 500);
    match ask(&format!("{many},X")).unwrap_err() {
        ApiError::BadRequest(m) => assert_eq!(m, "batch exceeds 500 tickers"),
        other => panic!("expected BadRequest, got {other:?}"),
    }
    let q = BatchQuery { tickers: String::new() };
    assert!(matches!(
        prepare_batch(&auth_hdr("Bearer bad"), &cfg, &q).unwrap_err(),
        ApiError::InvalidToken
    ));
}

fn names(v: &[&str]) -> Vec<String> {
    v.iter().map(|s| (*s).to_owned()).collect()
}

#[test]
fn json_batches_show_snapshots_hex_and_nothing() {
    let tickers = names(&["B", "A", "C", "A"]);
    let results = vec![
        Some(Bytes::from_static(b"{ \"last\": 1.5 }")),
        Some(Bytes::from_static(b"1")),
        None,
        Some(Bytes::from_static(b"\x00\xff")),
    ];
    let reply = finish_batch(Accept::Json, &tickers, &results).unwrap();
    assert_eq!(reply.accept, Accept::Json);
    assert_eq!(
        String::from_utf8(reply.body).unwrap(),
        r#"{"A":{"raw_hex":"00ff"},"B":{"last":1.5},"C":null}"#
    );
}

#[test]
fn messagepack_batches_hold_raw_bytes() {
    let tickers = names(&["A", "B", "A"]);
    let results = vec![
        Some(Bytes::from_static(b"x")),
        None,
        Some(Bytes::from_static(b"\x01\x02")),
    ];
    let reply = finish_batch(Accept::MessagePack, &tickers, &results).unwrap();
    let mut expected = std::collections::BTreeMap::new();
    expected.insert("A".to_owned(), Some(vec![1u8, 2]));
    expected.insert("B".to_owned(), None);
    let got: std::collections::BTreeMap<String, Option<Vec<u8>>> =
        rmp_serde::from_slice(&reply.body).unwrap();
    assert_eq!(got, expected);
}

#[test]
fn bodies_that_cannot_be_written() {
    assert!(matches!(wrap_batch(Accept::Json, None).unwrap_err(), ApiError::Internal("json")));
    assert!(matches!(
        wrap_batch(Accept::MessagePack, None).unwrap_err(),
        ApiError::Internal("msgpack")
    ));
    assert_eq!(wrap_batch(Accept::Json, Some(vec![1])).unwrap().body, [1]);
}

#[test]
fn configuration_from_lists() {
    let tokens = parse_tokens(" a, b ,,a");
    assert_eq!(tokens.len(), 2);
    assert!(tokens.contains("a") && tokens.contains("b"));
    assert!(parse_tokens("").is_empty());
    assert_eq!(parse_cors_origins("https://x , https://y"), ["https://x", "https://y"]);
    let mut cfg = ApiConfig::default();
    assert!(cfg.allows_any_origin());
    assert_eq!(cfg.rate_limit_per_second, Some(100));
    assert_eq!(cfg.redis_url, "redis://127.0.0.1/");
    assert_eq!(cfg.nats_url, "nats://127.0.0.1:4222");
    assert_eq!(cfg.etag_cache_ttl, 5_000_000_000);
    assert!(cfg.valid_tokens.is_empty());
    cfg.cors_allowed_origins = parse_cors_origins("https://x");
    assert!(!cfg.allows_any_origin());
}

#[test]
fn copies_of_a_configuration() {
    let mut cfg = cfg_with("t1");
    cfg.book_universe = Some(parse_tokens("PETR4"));
    cfg.cors_allowed_origins = parse_cors_origins("https://a, https://b");
    let copy = cfg.clone();
    assert_eq!(copy.redis_url, cfg.redis_url);
    assert_eq!(copy.nats_url, cfg.nats_url);
    assert!(copy.valid_tokens.contains("t1") && copy.valid_tokens.len() == 1);
    assert!(copy.book_universe.unwrap().contains("PETR4"));
    assert_eq!(copy.rate_limit_per_second, Some(100));
    assert_eq!(copy.etag_cache_ttl, 5_000_000_000);
    assert_eq!(copy.cors_allowed_origins, ["https://a", "https://b"]);
}

#[test]
fn entries_of_a_batch_hold_each_ticker_once() {
    let tickers = names(&["A", "B", "A", "C"]);
    let results = vec![
        Some(Bytes::from_static(b"x")),
        None,
        Some(Bytes::from_static(b"y")),
        Some(Bytes::from_static(b"z")),
    ];
    assert_eq!(
        batch_entries(&tickers, &results),
        [("B", None), ("A", Some(&b"y"[..])), ("C", Some(&b"z"[..]))]
    );
}
