use cedro::ingest::runtime_config::{
    on_unless_zero, parse_i32, parse_unsigned, RuntimeConfig, RuntimeVars,
};

fn unset() -> RuntimeVars {
    RuntimeVars {
        log_filter: None,
        log_json: None,
        metrics_bind: None,
        cedro_host: None,
        cedro_port: None,
        cedro_software_key: None,
        cedro_username: Some("alice".to_owned()),
        cedro_password: Some("s3cr3t".to_owned()),
        so_rcvbuf: None,
        frame_channel_capacity: None,
        reader_cpu: None,
        watchdog_cpu: None,
        n_parser_workers: None,
        n_book_shards: None,
        trade_buffer_per_ticker: None,
        nats_url: None,
        redis_url: None,
        snapshot_ttl_seconds: None,
        raw_archive_dir: None,
        raw_archive_zstd_level: None,
        database_url: Some("postgres://db".to_owned()),
        db_pool_size: None,
        wal_path: None,
        trade_batch_size: None,
        trade_flush_interval_ms: None,
    }
}

#[test]
fn defaults_match_production() {
    let c = RuntimeConfig::from_vars(unset()).unwrap();
    assert_eq!(c.log_filter, "info");
    assert!(c.log_json);
    assert_eq!(c.metrics_bind, "0.0.0.0:9100");
    assert_eq!(c.cedro_host, "127.0.0.1");
    assert_eq!(c.cedro_port, 81);
    assert_eq!(c.cedro_software_key, "");
    assert_eq!(c.cedro_username, "alice");
    assert_eq!(c.cedro_password, "s3cr3t");
    assert_eq!(c.so_rcvbuf, 128 * 1024 * 1024);
    assert_eq!(c.frame_channel_capacity, 2 * 1024 * 1024);
    assert_eq!(c.reader_cpu, None);
    assert_eq!(c.watchdog_cpu, None);
    assert_eq!(c.n_parser_workers, 8);
    assert_eq!(c.n_book_shards, 8);
    assert_eq!(c.trade_buffer_per_ticker, 100);
    assert_eq!(c.nats_url, "nats://127.0.0.1:4222");
    assert_eq!(c.redis_url, "redis://127.0.0.1/");
    assert_eq!(c.snapshot_ttl_seconds, None);
    assert_eq!(c.raw_archive_dir, "/var/data/raw");
    assert_eq!(c.raw_archive_zstd_level, 3);
    assert_eq!(c.database_url, "postgres://db");
    assert_eq!(c.db_pool_size, 4);
    assert_eq!(c.wal_path, "/var/data/trades.wal");
    assert_eq!(c.trade_batch_size, 5000);
    assert_eq!(c.trade_flush_interval_ms, 100);
}

#[test]
fn variables_override_defaults() {
    let mut v = unset();
    v.cedro_port = Some("+8081".to_owned());
    v.log_json = Some("0".to_owned());
    v.reader_cpu = Some("3".to_owned());
    v.snapshot_ttl_seconds = Some("60".to_owned());
    v.raw_archive_zstd_level = Some("-7".to_owned());
    let c = RuntimeConfig::from_vars(v).unwrap();
    assert_eq!(c.cedro_port, 8081);
    assert!(!c.log_json);
    assert_eq!(c.reader_cpu, Some(3));
    assert_eq!(c.snapshot_ttl_seconds, Some(60));
    assert_eq!(c.raw_archive_zstd_level, -7);
}

#[test]
fn the_first_objection_is_told() {
    let mut v = unset();
    v.cedro_username = None;
    v.cedro_password = None;
    assert_eq!(RuntimeConfig::from_vars(v).unwrap_err(), "CEDRO_USERNAME missing");

    let mut v = unset();
    v.cedro_port = Some("65536".to_owned());
    v.cedro_username = None;
    assert_eq!(RuntimeConfig::from_vars(v).unwrap_err(), "invalid env var value");

    let mut v = unset();
    v.cedro_password = None;
    assert_eq!(RuntimeConfig::from_vars(v).unwrap_err(), "CEDRO_PASSWORD missing");

    let mut v = unset();
    v.database_url = None;
    assert_eq!(RuntimeConfig::from_vars(v).unwrap_err(), "DATABASE_URL missing");

    let mut v = unset();
    v.raw_archive_zstd_level = Some("2147483648".to_owned());
    v.database_url = None;
    assert_eq!(RuntimeConfig::from_vars(v).unwrap_err(), "invalid env var value");
}

#[test]
fn numbers_are_read_as_the_standard_library_reads_them() {
    for s in ["", "+", "-", "0", "-0", "+0", "00", "7", "+7", "-7", "++7", "+-7", " 7", "7 ", "1_0",
        "65535", "65536", "4294967295", "4294967296", "18446744073709551615",
        "18446744073709551616", "2147483647", "2147483648", "-2147483648", "-2147483649", "x"]
    {
        assert_eq!(parse_unsigned(s, u64::MAX), s.parse::<u64>().ok(), "{s:?}");
        assert_eq!(parse_unsigned(s, 65535), s.parse::<u16>().ok().map(u64::from), "{s:?}");
        assert_eq!(parse_i32(s), s.parse::<i32>().ok(), "{s:?}");
    }
}

#[test]
fn switches_are_on_unless_zero() {
    assert!(on_unless_zero(&None));
    assert!(on_unless_zero(&Some("1".to_owned())));
    assert!(on_unless_zero(&Some(String::new())));
    assert!(!on_unless_zero(&Some("0".to_owned())));
}
