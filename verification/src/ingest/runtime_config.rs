//! The ingest daemon's configuration, from variables of its environment.
//!
//! Every variable but three has a default. Whoever reads the environment fills
//! in [`RuntimeVars`]; [`RuntimeConfig::from_vars`] makes sense of it.
use crate::text;
use vstd::prelude::*;

verus! {

/// The message for a variable that is no number, or one out of range.
pub const BAD_VALUE: &'static str = "invalid env var value";

/// The variables as they are set, if they are.
#[derive(Debug)]
pub struct RuntimeVars {
    /// `LOG_FILTER`
    pub log_filter: Option<String>,
    /// `LOG_JSON`
    pub log_json: Option<String>,
    /// `METRICS_BIND`
    pub metrics_bind: Option<String>,
    /// `CEDRO_HOST`
    pub cedro_host: Option<String>,
    /// `CEDRO_PORT`
    pub cedro_port: Option<String>,
    /// `CEDRO_SOFTWARE_KEY`
    pub cedro_software_key: Option<String>,
    /// `CEDRO_USERNAME`
    pub cedro_username: Option<String>,
    /// `CEDRO_PASSWORD`
    pub cedro_password: Option<String>,
    /// `SO_RCVBUF`
    pub so_rcvbuf: Option<String>,
    /// `FRAME_CHANNEL_CAPACITY`
    pub frame_channel_capacity: Option<String>,
    /// `READER_CPU`
    pub reader_cpu: Option<String>,
    /// `WATCHDOG_CPU`
    pub watchdog_cpu: Option<String>,
    /// `PARSER_WORKERS`
    pub n_parser_workers: Option<String>,
    /// `BOOK_SHARDS`
    pub n_book_shards: Option<String>,
    /// `TRADE_BUFFER_PER_TICKER`
    pub trade_buffer_per_ticker: Option<String>,
    /// `NATS_URL`
    pub nats_url: Option<String>,
    /// `REDIS_URL`
    pub redis_url: Option<String>,
    /// `SNAPSHOT_TTL_SECONDS`
    pub snapshot_ttl_seconds: Option<String>,
    /// `RAW_ARCHIVE_DIR`
    pub raw_archive_dir: Option<String>,
    /// `RAW_ZSTD_LEVEL`
    pub raw_archive_zstd_level: Option<String>,
    /// `DATABASE_URL`
    pub database_url: Option<String>,
    /// `DB_POOL_SIZE`
    pub db_pool_size: Option<String>,
    /// `WAL_PATH`
    pub wal_path: Option<String>,
    /// `TRADE_BATCH_SIZE`
    pub trade_batch_size: Option<String>,
    /// `TRADE_FLUSH_MS`
    pub trade_flush_interval_ms: Option<String>,
}

/// The configuration of the ingest daemon.
#[derive(Debug, Clone)]
pub struct RuntimeConfig {
    /// Log filter directive.
    pub log_filter: String,
    /// Logs as JSON.
    pub log_json: bool,
    /// Address of the metrics endpoint.
    pub metrics_bind: String,
    /// Host of the feed.
    pub cedro_host: String,
    /// Port of the feed.
    pub cedro_port: u16,
    /// Software key of the handshake.
    pub cedro_software_key: String,
    /// User name of the handshake.
    pub cedro_username: String,
    /// Password of the handshake.
    pub cedro_password: String,
    /// Size of the kernel's receive buffer in bytes.
    pub so_rcvbuf: usize,
    /// How many frames may wait for the parsers.
    pub frame_channel_capacity: usize,
    /// Core of the reader thread.
    pub reader_cpu: Option<usize>,
    /// Core of the watchdog thread.
    pub watchdog_cpu: Option<usize>,
    /// How many parser workers.
    pub n_parser_workers: usize,
    /// How many shards of books.
    pub n_book_shards: usize,
    /// How many trades are kept of each ticker.
    pub trade_buffer_per_ticker: usize,
    /// Where live updates go.
    pub nats_url: String,
    /// Where snapshots go.
    pub redis_url: String,
    /// How long a snapshot lives.
    pub snapshot_ttl_seconds: Option<u64>,
    /// Directory of the raw archive.
    pub raw_archive_dir: String,
    /// Compression level of the raw archive.
    pub raw_archive_zstd_level: i32,
    /// Database of the trades.
    pub database_url: String,
    /// Connections to the database.
    pub db_pool_size: u32,
    /// File of the write-ahead log.
    pub wal_path: String,
    /// Trades per batch.
    pub trade_batch_size: usize,
    /// Milliseconds between flushes of trades.
    pub trade_flush_interval_ms: u64,
}

/// The digits of an unsigned number: all but an optional leading plus.
pub open spec fn after_plus(s: Seq<u8>) -> Seq<u8> {
    if s.len() > 0 && s[0] == '+' as u8 {
        s.drop_first()
    } else {
        s
    }
}

/// What an unsigned number from zero to `max` reads as, if `s` is one: an
/// optional plus, then digits.
pub open spec fn unsigned_value(s: Seq<u8>, max: nat) -> Option<nat> {
    let d = after_plus(s);
    if d.len() > 0 && text::all_digits(d) && text::number(d) <= max {
        Some(text::number(d))
    } else {
        None
    }
}

/// What a signed 32-bit number reads as, if `s` is one: an optional sign, then
/// digits.
pub open spec fn signed_value(s: Seq<u8>) -> Option<int> {
    let d = text::unsigned(s);
    let minus = s.len() > 0 && s[0] == '-' as u8;
    if d.len() > 0 && text::all_digits(d) && text::number(d) <= if minus {
        0x8000_0000
    } else {
        0x7fff_ffffnat
    } {
        Some(
            if minus {
                -(text::number(d) as int)
            } else {
                text::number(d) as int
            },
        )
    } else {
        None
    }
}

/// The number that a variable gives, where it is set.
pub open spec fn reads_unsigned(v: Option<String>, max: nat) -> Option<nat> {
    match v {
        Some(s) => unsigned_value(vstd::utf8::encode_utf8(s@), max),
        None => None,
    }
}

/// A variable that is set, and to no number up to `max`.
pub open spec fn bad_unsigned(v: Option<String>, max: nat) -> bool {
    v is Some && reads_unsigned(v, max) is None
}

/// A variable that is set, and to no signed number.
pub open spec fn bad_signed(v: Option<String>) -> bool {
    v matches Some(s) && signed_value(vstd::utf8::encode_utf8(s@)) is None
}

/// `n` is the number that the variable gives, or the default.
pub open spec fn is_number(v: Option<String>, max: nat, default: nat, n: nat) -> bool {
    n == match v {
        Some(s) => reads_unsigned(v, max)->0,
        None => default,
    }
}

/// `n` is the number that the variable gives, if any.
pub open spec fn is_optional(v: Option<String>, max: nat, n: Option<nat>) -> bool {
    n == reads_unsigned(v, max)
}

/// `s` is the text that the variable gives, or the default.
pub open spec fn is_text(v: Option<String>, default: &str, s: String) -> bool {
    s@ == match v {
        Some(t) => t@,
        None => default@,
    }
}

/// What is wrong with the variables: the first objection.
pub open spec fn objection(v: RuntimeVars) -> Option<&'static str> {
    if bad_unsigned(v.cedro_port, u16::MAX as nat) {
        Some(BAD_VALUE)
    } else if v.cedro_username is None {
        Some("CEDRO_USERNAME missing")
    } else if v.cedro_password is None {
        Some("CEDRO_PASSWORD missing")
    } else if bad_unsigned(v.so_rcvbuf, usize::MAX as nat) {
        Some(BAD_VALUE)
    } else if bad_unsigned(v.frame_channel_capacity, usize::MAX as nat) {
        Some(BAD_VALUE)
    } else if bad_unsigned(v.reader_cpu, usize::MAX as nat) {
        Some(BAD_VALUE)
    } else if bad_unsigned(v.watchdog_cpu, usize::MAX as nat) {
        Some(BAD_VALUE)
    } else if bad_unsigned(v.n_parser_workers, usize::MAX as nat) {
        Some(BAD_VALUE)
    } else if bad_unsigned(v.n_book_shards, usize::MAX as nat) {
        Some(BAD_VALUE)
    } else if bad_unsigned(v.trade_buffer_per_ticker, usize::MAX as nat) {
        Some(BAD_VALUE)
    } else if bad_unsigned(v.snapshot_ttl_seconds, u64::MAX as nat) {
        Some(BAD_VALUE)
    } else if bad_signed(v.raw_archive_zstd_level) {
        Some(BAD_VALUE)
    } else if v.database_url is None {
        Some("DATABASE_URL missing")
    } else if bad_unsigned(v.db_pool_size, u32::MAX as nat) {
        Some(BAD_VALUE)
    } else if bad_unsigned(v.trade_batch_size, usize::MAX as nat) {
        Some(BAD_VALUE)
    } else if bad_unsigned(v.trade_flush_interval_ms, u64::MAX as nat) {
        Some(BAD_VALUE)
    } else {
        None
    }
}

/// `c` is what the variables say.
pub open spec fn is_config(v: RuntimeVars, c: RuntimeConfig) -> bool {
    &&& is_text(v.log_filter, "info", c.log_filter)
    &&& c.log_json == !(v.log_json matches Some(s) && s@ == "0"@)
    &&& is_text(v.metrics_bind, "0.0.0.0:9100", c.metrics_bind)
    &&& is_text(v.cedro_host, "127.0.0.1", c.cedro_host)
    &&& is_number(v.cedro_port, u16::MAX as nat, 81, c.cedro_port as nat)
    &&& is_text(v.cedro_software_key, "", c.cedro_software_key)
    &&& v.cedro_username == Some(c.cedro_username)
    &&& v.cedro_password == Some(c.cedro_password)
    &&& is_number(v.so_rcvbuf, usize::MAX as nat, (128 * 1024 * 1024) as nat, c.so_rcvbuf as nat)
    &&& is_number(v.frame_channel_capacity, usize::MAX as nat, (2 * 1024 * 1024) as nat, c.frame_channel_capacity as nat)
    &&& is_optional(
        v.reader_cpu,
        usize::MAX as nat,
        match c.reader_cpu {
            Some(n) => Some(n as nat),
            None => None,
        },
    )
    &&& is_optional(
        v.watchdog_cpu,
        usize::MAX as nat,
        match c.watchdog_cpu {
            Some(n) => Some(n as nat),
            None => None,
        },
    )
    &&& is_number(v.n_parser_workers, usize::MAX as nat, 8, c.n_parser_workers as nat)
    &&& is_number(v.n_book_shards, usize::MAX as nat, 8, c.n_book_shards as nat)
    &&& is_number(v.trade_buffer_per_ticker, usize::MAX as nat, 100, c.trade_buffer_per_ticker as nat)
    &&& is_text(v.nats_url, "nats://127.0.0.1:4222", c.nats_url)
    &&& is_text(v.redis_url, "redis://127.0.0.1/", c.redis_url)
    &&& is_optional(
        v.snapshot_ttl_seconds,
        u64::MAX as nat,
        match c.snapshot_ttl_seconds {
            Some(n) => Some(n as nat),
            None => None,
        },
    )
    &&& is_text(v.raw_archive_dir, "/var/data/raw", c.raw_archive_dir)
    &&& c.raw_archive_zstd_level == match v.raw_archive_zstd_level {
        Some(s) => signed_value(vstd::utf8::encode_utf8(s@))->0,
        None => 3,
    }
    &&& v.database_url == Some(c.database_url)
    &&& is_number(v.db_pool_size, u32::MAX as nat, 4, c.db_pool_size as nat)
    &&& is_text(v.wal_path, "/var/data/trades.wal", c.wal_path)
    &&& is_number(v.trade_batch_size, usize::MAX as nat, 5000, c.trade_batch_size as nat)
    &&& is_number(v.trade_flush_interval_ms, u64::MAX as nat, 100, c.trade_flush_interval_ms as nat)
}

/// The number that digits spell, when there are any and it is at most `max`.
fn digits_value(b: &[u8], max: u64) -> (r: Option<u64>)
    ensures
        match r {
            Some(n) => b@.len() > 0 && text::all_digits(b@) && n == text::number(b@) && n <= max,
            None => !(b@.len() > 0 && text::all_digits(b@) && text::number(b@) <= max),
        },
{
    if b.len() == 0 {
        None
    } else {
        text::digits_up_to(b, max)
    }
}

/// An unsigned number from zero to `max`: an optional plus, then digits.
pub fn parse_unsigned(s: &str, max: u64) -> (r: Option<u64>)
    ensures
        match r {
            Some(n) => unsigned_value(text::bytes_of(s), max as nat) == Some(n as nat),
            None => unsigned_value(text::bytes_of(s), max as nat) is None,
        },
{
    let b = s.as_bytes();
    if b.len() > 0 && b[0] == '+' as u8 {
        let d = text::from_index(b, 1);
        assert(d@ =~= b@.drop_first());
        digits_value(d, max)
    } else {
        digits_value(b, max)
    }
}

/// A signed 32-bit number: an optional sign, then digits.
pub fn parse_i32(s: &str) -> (r: Option<i32>)
    ensures
        match r {
            Some(n) => signed_value(text::bytes_of(s)) == Some(n as int),
            None => signed_value(text::bytes_of(s)) is None,
        },
{
    let b = s.as_bytes();
    if b.len() > 0 && b[0] == '-' as u8 {
        let d = text::from_index(b, 1);
        assert(d@ =~= b@.drop_first());
        match digits_value(d, 0x8000_0000) {
            Some(n) => Some((-(n as i64)) as i32),
            None => None,
        }
    } else {
        let d = if b.len() > 0 && b[0] == '+' as u8 {
            text::from_index(b, 1)
        } else {
            b
        };
        assert(d@ =~= text::unsigned(b@));
        match digits_value(d, 0x7fff_ffff) {
            Some(n) => Some(n as i32),
            None => None,
        }
    }
}

/// The number that a variable gives, or the default.
fn number_or(v: &Option<String>, max: u64, default: u64) -> (r: Result<u64, &'static str>)
    ensures
        match r {
            Ok(n) => !bad_unsigned(*v, max as nat) && is_number(
                *v,
                max as nat,
                default as nat,
                n as nat,
            ) && (n <= max || n == default),
            Err(e) => bad_unsigned(*v, max as nat) && e == BAD_VALUE,
        },
{
    match v {
        Some(s) => match parse_unsigned(s.as_str(), max) {
            Some(n) => Ok(n),
            None => Err(BAD_VALUE),
        },
        None => Ok(default),
    }
}

/// The number that a variable gives, if any.
fn number_if_set(v: &Option<String>, max: u64) -> (r: Result<Option<u64>, &'static str>)
    ensures
        match r {
            Ok(n) => !bad_unsigned(*v, max as nat) && is_optional(
                *v,
                max as nat,
                match n {
                    Some(x) => Some(x as nat),
                    None => None,
                },
            ) && (n matches Some(x) ==> x <= max),
            Err(e) => bad_unsigned(*v, max as nat) && e == BAD_VALUE,
        },
{
    match v {
        Some(s) => match parse_unsigned(s.as_str(), max) {
            Some(n) => Ok(Some(n)),
            None => Err(BAD_VALUE),
        },
        None => Ok(None),
    }
}

/// The size that a variable gives, or the default.
fn size_or(v: &Option<String>, default: usize) -> (r: Result<usize, &'static str>)
    ensures
        match r {
            Ok(n) => !bad_unsigned(*v, usize::MAX as nat) && is_number(
                *v,
                usize::MAX as nat,
                default as nat,
                n as nat,
            ),
            Err(e) => bad_unsigned(*v, usize::MAX as nat) && e == BAD_VALUE,
        },
{
    match number_or(v, usize::MAX as u64, default as u64) {
        Ok(n) => Ok(n as usize),
        Err(e) => Err(e),
    }
}

/// The size that a variable gives, if any.
fn size_if_set(v: &Option<String>) -> (r: Result<Option<usize>, &'static str>)
    ensures
        match r {
            Ok(n) => !bad_unsigned(*v, usize::MAX as nat) && is_optional(
                *v,
                usize::MAX as nat,
                match n {
                    Some(x) => Some(x as nat),
                    None => None,
                },
            ),
            Err(e) => bad_unsigned(*v, usize::MAX as nat) && e == BAD_VALUE,
        },
{
    match number_if_set(v, usize::MAX as u64) {
        Ok(Some(n)) => Ok(Some(n as usize)),
        Ok(None) => Ok(None),
        Err(e) => Err(e),
    }
}

/// The text that a variable gives, or the default.
fn text_or(v: Option<String>, default: &str) -> (r: String)
    ensures
        is_text(v, default, r),
{
    match v {
        Some(s) => s,
        None => default.to_owned(),
    }
}

/// The text of a variable that must be set.
fn text_required(v: Option<String>, missing: &'static str) -> (r: Result<String, &'static str>)
    ensures
        match r {
            Ok(s) => v == Some(s),
            Err(e) => v is None && e == missing,
        },
{
    match v {
        Some(s) => Ok(s),
        None => Err(missing),
    }
}

/// A switch that is on unless the variable is `0`.
pub fn on_unless_zero(v: &Option<String>) -> (r: bool)
    ensures
        r == !(*v matches Some(s) && s@ == "0"@),
{
    match v {
        Some(s) => {
            let zero: String = "0".to_owned();
            !(*s == zero)
        },
        None => true,
    }
}

impl RuntimeConfig {
    /// The configuration that the variables give, or the first objection.
    pub fn from_vars(vars: RuntimeVars) -> (r: Result<Self, &'static str>)
        ensures
            match r {
                Ok(c) => objection(vars) is None && is_config(vars, c),
                Err(e) => objection(vars) == Some(e),
            },
    {
        let log_filter = text_or(vars.log_filter, "info");
        let log_json: bool = on_unless_zero(&vars.log_json);
        let metrics_bind = text_or(vars.metrics_bind, "0.0.0.0:9100");
        let cedro_host = text_or(vars.cedro_host, "127.0.0.1");
        let cedro_port: u16 = number_or(&vars.cedro_port, u16::MAX as u64, 81)? as u16;
        let cedro_software_key = text_or(vars.cedro_software_key, "");
        let cedro_username = text_required(vars.cedro_username, "CEDRO_USERNAME missing")?;
        let cedro_password = text_required(vars.cedro_password, "CEDRO_PASSWORD missing")?;
        let so_rcvbuf: usize = size_or(&vars.so_rcvbuf, 128 * 1024 * 1024)?;
        let frame_channel_capacity: usize = size_or(&vars.frame_channel_capacity, 2 * 1024 * 1024)?;
        let reader_cpu: Option<usize> = size_if_set(&vars.reader_cpu)?;
        let watchdog_cpu: Option<usize> = size_if_set(&vars.watchdog_cpu)?;
        let n_parser_workers: usize = size_or(&vars.n_parser_workers, 8)?;
        let n_book_shards: usize = size_or(&vars.n_book_shards, 8)?;
        let trade_buffer_per_ticker: usize = size_or(&vars.trade_buffer_per_ticker, 100)?;
        let nats_url = text_or(vars.nats_url, "nats://127.0.0.1:4222");
        let redis_url = text_or(vars.redis_url, "redis://127.0.0.1/");
        let snapshot_ttl_seconds: Option<u64> = number_if_set(&vars.snapshot_ttl_seconds, u64::MAX)?;
        let raw_archive_dir = text_or(vars.raw_archive_dir, "/var/data/raw");
        let raw_archive_zstd_level: i32 = match &vars.raw_archive_zstd_level {
            Some(s) => match parse_i32(s.as_str()) {
                Some(n) => n,
                None => {
                    return Err(BAD_VALUE);
                },
            },
            None => 3,
        };
        let database_url = text_required(vars.database_url, "DATABASE_URL missing")?;
        let db_pool_size: u32 = number_or(&vars.db_pool_size, u32::MAX as u64, 4)? as u32;
        let wal_path = text_or(vars.wal_path, "/var/data/trades.wal");
        let trade_batch_size: usize = size_or(&vars.trade_batch_size, 5000)?;
        let trade_flush_interval_ms: u64 = number_or(&vars.trade_flush_interval_ms, u64::MAX, 100)?;
        Ok(
            RuntimeConfig {
                log_filter,
                log_json,
                metrics_bind,
                cedro_host,
                cedro_port,
                cedro_software_key,
                cedro_username,
                cedro_password,
                so_rcvbuf,
                frame_channel_capacity,
                reader_cpu,
                watchdog_cpu,
                n_parser_workers,
                n_book_shards,
                trade_buffer_per_ticker,
                nats_url,
                redis_url,
                snapshot_ttl_seconds,
                raw_archive_dir,
                raw_archive_zstd_level,
                database_url,
                db_pool_size,
                wal_path,
                trade_batch_size,
                trade_flush_interval_ms,
            },
        )
    }
}

/// Defaults are valid: the three variables without a default are enough.
pub proof fn law_defaults_are_enough(v: RuntimeVars)
    requires
        v.cedro_username is Some,
        v.cedro_password is Some,
        v.database_url is Some,
        v.cedro_port is None,
        v.so_rcvbuf is None,
        v.frame_channel_capacity is None,
        v.reader_cpu is None,
        v.watchdog_cpu is None,
        v.n_parser_workers is None,
        v.n_book_shards is None,
        v.trade_buffer_per_ticker is None,
        v.snapshot_ttl_seconds is None,
        v.raw_archive_zstd_level is None,
        v.db_pool_size is None,
        v.trade_batch_size is None,
        v.trade_flush_interval_ms is None,
    ensures
        objection(v) is None,
{
}

/// Digits and nothing else.
pub open spec fn is_plain(s: String) -> bool {
    &&& vstd::utf8::encode_utf8(s@).len() > 0
    &&& text::all_digits(vstd::utf8::encode_utf8(s@))
}

proof fn lemma_plain(v: Option<String>, max: nat)
    requires
        v matches Some(s) && is_plain(s),
        !bad_unsigned(v, max),
    ensures
        reads_unsigned(v, max) == Some(text::number(vstd::utf8::encode_utf8(v->0@))),
{
    let b = vstd::utf8::encode_utf8(v->0@);
    assert(text::is_digit(b[0]));
}

/// Each text has a variable of its own, and a default.
pub proof fn law_text_variables(v: RuntimeVars, c: RuntimeConfig)
    requires
        is_config(v, c),
    ensures
        v.log_filter is None ==> c.log_filter@ == "info"@,
        v.log_filter matches Some(s) ==> c.log_filter@ == s@,
        v.metrics_bind is None ==> c.metrics_bind@ == "0.0.0.0:9100"@,
        v.metrics_bind matches Some(s) ==> c.metrics_bind@ == s@,
        v.cedro_host is None ==> c.cedro_host@ == "127.0.0.1"@,
        v.cedro_host matches Some(s) ==> c.cedro_host@ == s@,
        v.cedro_software_key is None ==> c.cedro_software_key@ == ""@,
        v.cedro_software_key matches Some(s) ==> c.cedro_software_key@ == s@,
        v.nats_url is None ==> c.nats_url@ == "nats://127.0.0.1:4222"@,
        v.nats_url matches Some(s) ==> c.nats_url@ == s@,
        v.redis_url is None ==> c.redis_url@ == "redis://127.0.0.1/"@,
        v.redis_url matches Some(s) ==> c.redis_url@ == s@,
        v.raw_archive_dir is None ==> c.raw_archive_dir@ == "/var/data/raw"@,
        v.raw_archive_dir matches Some(s) ==> c.raw_archive_dir@ == s@,
        v.wal_path is None ==> c.wal_path@ == "/var/data/trades.wal"@,
        v.wal_path matches Some(s) ==> c.wal_path@ == s@,
        v.cedro_username matches Some(s) && c.cedro_username@ == s@,
        v.cedro_password matches Some(s) && c.cedro_password@ == s@,
        v.database_url matches Some(s) && c.database_url@ == s@,
        v.log_json is None ==> c.log_json,
        v.log_json matches Some(s) ==> (c.log_json <==> s@ != "0"@),
{
}

/// Each number has a variable of its own, and a default; the cores and the
/// lifetime of snapshots are left out unless they are given.
pub proof fn law_number_variables(v: RuntimeVars, c: RuntimeConfig)
    requires
        is_config(v, c),
        objection(v) is None,
    ensures
        v.cedro_port is None ==> c.cedro_port == 81,
        v.cedro_port is Some && is_plain(v.cedro_port->0) ==> c.cedro_port == text::number(
            vstd::utf8::encode_utf8(v.cedro_port->0@),
        ),
        v.so_rcvbuf is None ==> c.so_rcvbuf == 134217728,
        v.so_rcvbuf is Some && is_plain(v.so_rcvbuf->0) ==> c.so_rcvbuf == text::number(
            vstd::utf8::encode_utf8(v.so_rcvbuf->0@),
        ),
        v.frame_channel_capacity is None ==> c.frame_channel_capacity == 2097152,
        v.frame_channel_capacity is Some && is_plain(v.frame_channel_capacity->0)
            ==> c.frame_channel_capacity == text::number(
            vstd::utf8::encode_utf8(v.frame_channel_capacity->0@),
        ),
        v.n_parser_workers is None ==> c.n_parser_workers == 8,
        v.n_parser_workers is Some && is_plain(v.n_parser_workers->0)
            ==> c.n_parser_workers == text::number(
            vstd::utf8::encode_utf8(v.n_parser_workers->0@),
        ),
        v.n_book_shards is None ==> c.n_book_shards == 8,
        v.n_book_shards is Some && is_plain(v.n_book_shards->0) ==> c.n_book_shards == text::number(
            vstd::utf8::encode_utf8(v.n_book_shards->0@),
        ),
        v.trade_buffer_per_ticker is None ==> c.trade_buffer_per_ticker == 100,
        v.trade_buffer_per_ticker is Some && is_plain(v.trade_buffer_per_ticker->0)
            ==> c.trade_buffer_per_ticker == text::number(
            vstd::utf8::encode_utf8(v.trade_buffer_per_ticker->0@),
        ),
        v.db_pool_size is None ==> c.db_pool_size == 4,
        v.db_pool_size is Some && is_plain(v.db_pool_size->0) ==> c.db_pool_size == text::number(
            vstd::utf8::encode_utf8(v.db_pool_size->0@),
        ),
        v.trade_batch_size is None ==> c.trade_batch_size == 5000,
        v.trade_batch_size is Some && is_plain(v.trade_batch_size->0)
            ==> c.trade_batch_size == text::number(
            vstd::utf8::encode_utf8(v.trade_batch_size->0@),
        ),
        v.trade_flush_interval_ms is None ==> c.trade_flush_interval_ms == 100,
        v.trade_flush_interval_ms is Some && is_plain(v.trade_flush_interval_ms->0)
            ==> c.trade_flush_interval_ms == text::number(
            vstd::utf8::encode_utf8(v.trade_flush_interval_ms->0@),
        ),
        v.reader_cpu is None ==> c.reader_cpu is None,
        v.reader_cpu is Some && is_plain(v.reader_cpu->0)
            ==> (c.reader_cpu matches Some(n) && n == text::number(
            vstd::utf8::encode_utf8(v.reader_cpu->0@),
        )),
        v.watchdog_cpu is None ==> c.watchdog_cpu is None,
        v.watchdog_cpu is Some && is_plain(v.watchdog_cpu->0)
            ==> (c.watchdog_cpu matches Some(n) && n == text::number(
            vstd::utf8::encode_utf8(v.watchdog_cpu->0@),
        )),
        v.snapshot_ttl_seconds is None ==> c.snapshot_ttl_seconds is None,
        v.snapshot_ttl_seconds is Some && is_plain(v.snapshot_ttl_seconds->0)
            ==> (c.snapshot_ttl_seconds matches Some(n) && n == text::number(
            vstd::utf8::encode_utf8(v.snapshot_ttl_seconds->0@),
        )),
        v.raw_archive_zstd_level is None ==> c.raw_archive_zstd_level == 3,
        v.raw_archive_zstd_level is Some && is_plain(v.raw_archive_zstd_level->0)
            ==> c.raw_archive_zstd_level == text::number(
            vstd::utf8::encode_utf8(v.raw_archive_zstd_level->0@),
        ),
{
    if v.cedro_port is Some && is_plain(v.cedro_port->0) {
        lemma_plain(v.cedro_port, u16::MAX as nat);
    }
    if v.so_rcvbuf is Some && is_plain(v.so_rcvbuf->0) {
        lemma_plain(v.so_rcvbuf, usize::MAX as nat);
    }
    if v.frame_channel_capacity is Some && is_plain(v.frame_channel_capacity->0) {
        lemma_plain(v.frame_channel_capacity, usize::MAX as nat);
    }
    if v.n_parser_workers is Some && is_plain(v.n_parser_workers->0) {
        lemma_plain(v.n_parser_workers, usize::MAX as nat);
    }
    if v.n_book_shards is Some && is_plain(v.n_book_shards->0) {
        lemma_plain(v.n_book_shards, usize::MAX as nat);
    }
    if v.trade_buffer_per_ticker is Some && is_plain(v.trade_buffer_per_ticker->0) {
        lemma_plain(v.trade_buffer_per_ticker, usize::MAX as nat);
    }
    if v.db_pool_size is Some && is_plain(v.db_pool_size->0) {
        lemma_plain(v.db_pool_size, u32::MAX as nat);
    }
    if v.trade_batch_size is Some && is_plain(v.trade_batch_size->0) {
        lemma_plain(v.trade_batch_size, usize::MAX as nat);
    }
    if v.trade_flush_interval_ms is Some && is_plain(v.trade_flush_interval_ms->0) {
        lemma_plain(v.trade_flush_interval_ms, u64::MAX as nat);
    }
    if v.reader_cpu is Some && is_plain(v.reader_cpu->0) {
        lemma_plain(v.reader_cpu, usize::MAX as nat);
    }
    if v.watchdog_cpu is Some && is_plain(v.watchdog_cpu->0) {
        lemma_plain(v.watchdog_cpu, usize::MAX as nat);
    }
    if v.snapshot_ttl_seconds is Some && is_plain(v.snapshot_ttl_seconds->0) {
        lemma_plain(v.snapshot_ttl_seconds, u64::MAX as nat);
    }
    if let Some(s) = v.raw_archive_zstd_level {
        if is_plain(s) {
            let b = vstd::utf8::encode_utf8(s@);
            assert(text::is_digit(b[0]));
        }
    }
}

/// A configuration is refused when a name, a password or the database is missing
/// or a number cannot be read, and for no other reason.
pub proof fn law_what_is_refused(v: RuntimeVars)
    ensures
        objection(v) is None <==> v.cedro_username is Some && v.cedro_password is Some
            && v.database_url is Some && !bad_unsigned(v.cedro_port, 65535) && !bad_unsigned(
            v.so_rcvbuf,
            usize::MAX as nat,
        ) && !bad_unsigned(v.frame_channel_capacity, usize::MAX as nat) && !bad_unsigned(
            v.reader_cpu,
            usize::MAX as nat,
        ) && !bad_unsigned(v.watchdog_cpu, usize::MAX as nat) && !bad_unsigned(
            v.n_parser_workers,
            usize::MAX as nat,
        ) && !bad_unsigned(v.n_book_shards, usize::MAX as nat) && !bad_unsigned(
            v.trade_buffer_per_ticker,
            usize::MAX as nat,
        ) && !bad_unsigned(v.snapshot_ttl_seconds, u64::MAX as nat) && !bad_signed(
            v.raw_archive_zstd_level,
        ) && !bad_unsigned(v.db_pool_size, u32::MAX as nat) && !bad_unsigned(
            v.trade_batch_size,
            usize::MAX as nat,
        ) && !bad_unsigned(v.trade_flush_interval_ms, u64::MAX as nat),
        v.cedro_port is None && v.cedro_username is None ==> objection(v) == Some(
            "CEDRO_USERNAME missing",
        ),
        v.cedro_port is None && v.cedro_username is Some && v.cedro_password is None ==> objection(
            v,
        ) == Some("CEDRO_PASSWORD missing"),
        objection(v) == Some("DATABASE_URL missing") || objection(v) == Some(
            "CEDRO_USERNAME missing",
        ) || objection(v) == Some("CEDRO_PASSWORD missing") || objection(v) == Some(
            "invalid env var value",
        ) || objection(v) is None,
        v.database_url is None && objection(RuntimeVars { database_url: v.cedro_host, ..v }) is None
            ==> objection(v) == Some("DATABASE_URL missing"),
{
}

/// Numbers are digits behind a plus or nothing, up to a limit; where they may be
/// negative, behind a minus too.
pub proof fn law_numbers_are_read(digits: Seq<u8>, max: nat)
    requires
        digits.len() > 0,
        text::all_digits(digits),
    ensures
        text::number(digits) <= max ==> unsigned_value(digits, max) == Some(text::number(digits))
            && unsigned_value(seq![43u8] + digits, max) == Some(text::number(digits)),
        text::number(digits) > max ==> unsigned_value(digits, max) is None,
        unsigned_value(seq![45u8] + digits, max) is None,
        unsigned_value(Seq::empty(), max) is None,
        text::number(digits) <= i32::MAX ==> signed_value(digits) == Some(
            text::number(digits) as int,
        ) && signed_value(seq![43u8] + digits) == Some(text::number(digits) as int),
        text::number(digits) <= 0x8000_0000 ==> signed_value(seq![45u8] + digits) == Some(
            -(text::number(digits) as int),
        ),
        text::number(digits) > i32::MAX ==> signed_value(digits) is None,
{
    assert(text::is_digit(digits[0]));
    let p = seq![43u8] + digits;
    let m = seq![45u8] + digits;
    assert(p[0] == 43 && m[0] == 45);
    assert(p.drop_first() =~= digits);
    assert(m.drop_first() =~= digits);
    assert(!text::is_digit(m[0]));
}

/// A configuration is made of its variables, or refused for what is wrong with
/// them.
pub proof fn law_variables_make_a_configuration(
    v: RuntimeVars,
    r: Result<RuntimeConfig, &'static str>,
)
    requires
        call_ensures(RuntimeConfig::from_vars, (v,), r),
    ensures
        r is Ok <==> objection(v) is None,
        r matches Ok(c) ==> is_config(v, c),
        r matches Err(e) ==> objection(v) == Some(e),
        r matches Ok(c) ==> (v.nats_url matches Some(s) ==> c.nats_url@ == s@) && (
        v.redis_url matches Some(s) ==> c.redis_url@ == s@) && (v.cedro_host matches Some(s)
            ==> c.cedro_host@ == s@) && v.cedro_username == Some(c.cedro_username)
            && v.cedro_password == Some(c.cedro_password) && v.database_url == Some(
            c.database_url,
        ),
{
}

} // verus!
