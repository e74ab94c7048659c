//! What each route answers.
//!
//! Every route but the health check asks for a token first. Then it says what
//! to fetch from the snapshot store, and, once that is there, what to answer.
use crate::api::auth;
use crate::api::auth::require_token;
use crate::api::config::ApiConfig;
use crate::api::content_neg;
use crate::api::content_neg::Accept;
use crate::api::error;
use crate::api::error::ApiError;
use crate::api::json;
use crate::api::snapshot_store::SnapshotKind;
use crate::market::shard;
use crate::tables;
use crate::text;
use crate::wire;
use ahash::RandomState;
use axum::http::{HeaderMap, HeaderValue};
use bytes::Bytes;
use std::hash::BuildHasher;
use vstd::prelude::*;

verus! {

/// How many tickers a batch may ask for.
pub const MAX_BATCH: usize = 500;

/// How many trades a request may ask for.
pub const MAX_TRADES: u32 = 1000;

/// The query of a batch: tickers with commas between them.
#[derive(Debug)]
pub struct BatchQuery {
    pub tickers: String,
}

/// The query of a trades request.
#[derive(Debug)]
pub struct TradesQuery {
    /// How many trades.
    pub limit: u32,
    /// From when on. Not supported.
    pub since: Option<String>,
}

/// How many trades are asked for where the query does not say.
pub fn default_limit() -> (r: u32)
    ensures
        r == 50,
{
    50
}

/// The body of the health check.
pub fn health_body() -> (r: &'static str)
    ensures
        r == "{\"status\":\"ok\"}",
{
    "{\"status\":\"ok\"}"
}

/// The request carries a valid token.
pub open spec fn may_ask(headers: HeaderMap<HeaderValue>, cfg: ApiConfig) -> bool {
    auth::admitted(auth::auth_header(headers), tables::texts(cfg.valid_tokens)) is Some
}

/// `e` is how a request without a valid token is refused.
pub open spec fn is_refusal(headers: HeaderMap<HeaderValue>, e: ApiError) -> bool {
    if auth::auth_header(headers) is None {
        e is MissingAuth
    } else {
        e is InvalidToken
    }
}

/// The form that a request asks for.
pub open spec fn form(headers: HeaderMap<HeaderValue>) -> Accept {
    content_neg::form_of(content_neg::accept_header(headers))
}

/// Whether a request for one snapshot is let through, and in which form it is
/// to be answered.
pub fn prepare_single(headers: &HeaderMap<HeaderValue>, cfg: &ApiConfig) -> (r: Result<
    Accept,
    ApiError,
>)
    ensures
        match r {
            Ok(a) => may_ask(*headers, *cfg) && a == form(*headers),
            Err(e) => !may_ask(*headers, *cfg) && is_refusal(*headers, e),
        },
{
    match require_token(headers, cfg) {
        Ok(_) => Ok(Accept::from_headers(headers)),
        Err(e) => Err(e),
    }
}

/// What is wrong with a trades query.
pub open spec fn trades_objection(q: TradesQuery) -> Option<&'static str> {
    if q.since is Some {
        Some("historical range queries require the TimescaleDB backend (task #2)")
    } else if q.limit == 0 || q.limit > MAX_TRADES {
        Some("limit must be in 1..=1000")
    } else {
        None
    }
}

/// Whether a request for trades is let through, and in which form it is to be
/// answered.
pub fn prepare_trades(
    headers: &HeaderMap<HeaderValue>,
    cfg: &ApiConfig,
    q: &TradesQuery,
) -> (r: Result<Accept, ApiError>)
    ensures
        match r {
            Ok(a) => may_ask(*headers, *cfg) && trades_objection(*q) is None && a == form(*headers),
            Err(e) => if !may_ask(*headers, *cfg) {
                is_refusal(*headers, e)
            } else {
                e matches ApiError::BadRequest(m) && trades_objection(*q) == Some(m)
            },
        },
{
    let _token = require_token(headers, cfg)?;
    if q.since.is_some() {
        return Err(
            ApiError::BadRequest(
                "historical range queries require the TimescaleDB backend (task #2)",
            ),
        );
    }
    if q.limit == 0 || q.limit > MAX_TRADES {
        return Err(ApiError::BadRequest("limit must be in 1..=1000"));
    }
    Ok(Accept::from_headers(headers))
}

/// What is wrong with a batch of tickers.
pub open spec fn batch_objection(tickers: Seq<Seq<char>>) -> Option<&'static str> {
    if tickers.len() == 0 {
        Some("tickers list is empty")
    } else if tickers.len() > MAX_BATCH {
        Some("batch exceeds 500 tickers")
    } else {
        None
    }
}

/// Whether a request for a batch is let through, in which form it is to be
/// answered, and the tickers it asks for.
pub fn prepare_batch(
    headers: &HeaderMap<HeaderValue>,
    cfg: &ApiConfig,
    q: &BatchQuery,
) -> (r: Result<(Accept, Vec<String>), ApiError>)
    ensures
        match r {
            Ok((a, t)) => {
                &&& may_ask(*headers, *cfg)
                &&& batch_objection(text::listed(q.tickers@)) is None
                &&& a == form(*headers)
                &&& text::texts_of(t@) == text::listed(q.tickers@)
            },
            Err(e) => if !may_ask(*headers, *cfg) {
                is_refusal(*headers, e)
            } else {
                e matches ApiError::BadRequest(m) && batch_objection(text::listed(q.tickers@))
                    == Some(m)
            },
        },
{
    let _token = require_token(headers, cfg)?;
    let accept = Accept::from_headers(headers);
    let tickers = text::split_list(q.tickers.as_str());
    assert(text::texts_of(tickers@).len() == tickers@.len());
    if tickers.len() == 0 {
        return Err(ApiError::BadRequest("tickers list is empty"));
    }
    if tickers.len() > MAX_BATCH {
        return Err(ApiError::BadRequest("batch exceeds 500 tickers"));
    }
    Ok((accept, tickers))
}

/// An answer with one snapshot.
#[derive(Debug)]
pub struct SnapshotReply {
    pub accept: Accept,
    pub cache_control: &'static str,
    pub etag: String,
    pub body: Bytes,
}

/// The entity tag of a hash: its hexadecimal digits in quotes.
pub open spec fn etag_text(hash: u64) -> Seq<char> {
    "\""@ + text::hex_number(hash as nat) + "\""@
}

/// What `hash_one` of a hasher state makes of a slice of bytes.
pub uninterp spec fn slice_hash(state: RandomState, bytes: Seq<u8>) -> u64;

/// The hash of a payload. Wraps `hash_one` of `RandomState`: the state and the
/// bytes alone decide it. What it is gets settled when the program is built, for
/// the processor it is built for, and is not said.
#[verifier::external_body]
fn payload_hash(builder: &RandomState, payload: &[u8]) -> (r: u64)
    ensures
        r == slice_hash(*builder, payload@),
{
    builder.hash_one(payload)
}

/// The entity tag of a hash.
pub fn render_etag(hash: u64) -> (r: String)
    ensures
        r@ == etag_text(hash),
{
    let mut out: String = "\"".to_owned();
    text::push_hex(&mut out, hash);
    out.append("\"");
    out
}

/// The entity tag of a payload: that of its hash under fixed seeds.
pub open spec fn etag_of(payload: Seq<u8>) -> Seq<char> {
    etag_text(slice_hash(shard::seeded(0x5af3, 0x01_07a4, 0xdead_beef, 0xcafe), payload))
}

/// The entity tag of a payload: that of its hash.
pub fn compute_etag(payload: &[u8]) -> (r: String)
    ensures
        r@ == etag_of(payload@),
{
    let builder = RandomState::with_seeds(0x5af3, 0x01_07a4, 0xdead_beef, 0xcafe);
    render_etag(payload_hash(&builder, payload))
}

/// The answer with one snapshot.
pub fn snapshot_response(accept: Accept, payload: Bytes) -> (r: SnapshotReply)
    ensures
        r.accept == accept,
        r.cache_control == "max-age=1",
        r.body == payload,
        r.etag@ == etag_of(wire::content(payload)),
{
    let etag = compute_etag(wire::as_slice(&payload));
    SnapshotReply { accept, cache_control: "max-age=1", etag, body: payload }
}

/// The answer to a request for one snapshot, given what the store holds.
pub fn finish_single(
    kind: SnapshotKind,
    ticker: String,
    accept: Accept,
    found: Option<Bytes>,
) -> (r: Result<SnapshotReply, ApiError>)
    ensures
        match found {
            Some(b) => r matches Ok(reply) && reply.accept == accept && reply.body == b
                && reply.cache_control == "max-age=1" && reply.etag@ == etag_of(wire::content(b)),
            None => match kind {
                SnapshotKind::Book => r matches Err(e) && e is BookNotAvailable,
                _ => r matches Err(e) && e == ApiError::TickerNotFound(ticker),
            },
        },
{
    match found {
        Some(payload) => Ok(snapshot_response(accept, payload)),
        None => match kind {
            SnapshotKind::Book => Err(ApiError::BookNotAvailable),
            _ => Err(ApiError::TickerNotFound(ticker)),
        },
    }
}

/// The bytes of a payload, if there is one.
pub open spec fn bytes_in(p: Option<Bytes>) -> Option<Seq<u8>> {
    match p {
        Some(b) => Some(wire::content(b)),
        None => None,
    }
}

/// How a payload that is not JSON is shown.
pub open spec fn raw_text(b: Seq<u8>) -> Seq<u8> {
    json::object_text(
        json::no_members().insert("raw_hex"@, json::string_text(text::hex_bytes(b))),
    )
}

/// How a payload is shown in JSON.
pub open spec fn cell_text(p: Option<Seq<u8>>) -> Seq<u8> {
    match p {
        None => text::bytes_of("null"),
        Some(b) => match json::reparsed(b) {
            Some(t) => t,
            None => raw_text(b),
        },
    }
}

/// The members of a batch in JSON, of the first `n` tickers: later ones win.
pub open spec fn batch_members(
    tickers: Seq<String>,
    results: Seq<Option<Bytes>>,
    n: nat,
) -> Map<Seq<char>, Seq<u8>>
    decreases n,
{
    if n == 0 {
        json::no_members()
    } else {
        batch_members(tickers, results, (n - 1) as nat).insert(
            tickers[n - 1]@,
            cell_text(bytes_in(results[n - 1])),
        )
    }
}

/// Tickers and payloads, pair by pair.
pub open spec fn batch_pairs(tickers: Seq<String>, results: Seq<Option<Bytes>>, n: nat) -> Seq<
    (Seq<char>, Option<Seq<u8>>),
> {
    Seq::new(n, |i: int| (tickers[i]@, bytes_in(results[i])))
}

/// How many pairs tickers and results make.
pub open spec fn pair_count(tickers: Seq<String>, results: Seq<Option<Bytes>>) -> nat {
    if tickers.len() < results.len() {
        tickers.len()
    } else {
        results.len()
    }
}

/// The body of a batch's answer.
pub open spec fn batch_text(
    accept: Accept,
    tickers: Seq<String>,
    results: Seq<Option<Bytes>>,
) -> Seq<u8> {
    let n = pair_count(tickers, results);
    match accept {
        Accept::Json => json::object_text(batch_members(tickers, results, n)),
        Accept::MessagePack => json::packed(json::table(batch_pairs(tickers, results, n))),
    }
}

/// A payload as a JSON value.
fn cell(p: &Option<Bytes>) -> (r: serde_json::Value)
    ensures
        json::json(r) == cell_text(bytes_in(*p)),
{
    match p {
        None => json::null(),
        Some(b) => {
            let bytes = wire::as_slice(b);
            match json::parse(bytes) {
                Some(v) => v,
                None => {
                    let mut m = json::new_object();
                    json::set_member(
                        &mut m,
                        "raw_hex".to_owned(),
                        json::string(text::hex(bytes)),
                    );
                    json::object(m)
                },
            }
        },
    }
}

/// The body of a batch's answer in JSON.
fn json_body(tickers: &Vec<String>, results: &Vec<Option<Bytes>>) -> (r: Option<Vec<u8>>)
    ensures
        r matches Some(v) && v@ == batch_text(Accept::Json, tickers@, results@),
{
    let n: usize = if tickers.len() < results.len() {
        tickers.len()
    } else {
        results.len()
    };
    let mut out = json::new_object();
    let mut i: usize = 0;
    while i < n
        invariant
            i <= n,
            n == pair_count(tickers@, results@),
            json::members(out) == batch_members(tickers@, results@, i as nat),
        decreases n - i,
    {
        json::set_member(&mut out, tickers[i].clone(), cell(&results[i]));
        i += 1;
    }
    json::write_object(&out)
}

/// What a batch's answer in MessagePack is made of: the snapshots by ticker, each
/// ticker once.
pub fn batch_entries<'a>(tickers: &'a Vec<String>, results: &'a Vec<Option<Bytes>>) -> (r: Vec<
    (&'a str, Option<&'a [u8]>),
>)
    ensures
        json::table(r@.map_values(|e: (&str, Option<&[u8]>)| json::entry(e))) == json::table(
            batch_pairs(tickers@, results@, pair_count(tickers@, results@)),
        ),
        forall|i: int, j: int|
            0 <= i < j < r@.len() ==> (#[trigger] r@[i]).0@ != (#[trigger] r@[j]).0@,
{
    let n: usize = if tickers.len() < results.len() {
        tickers.len()
    } else {
        results.len()
    };
    let ghost all = batch_pairs(tickers@, results@, n as nat);
    let mut entries: Vec<(&'a str, Option<&'a [u8]>)> = Vec::new();
    let ghost mut from: Seq<int> = Seq::empty();
    let mut i: usize = 0;
    while i < n
        invariant
            i <= n,
            n == pair_count(tickers@, results@),
            all == batch_pairs(tickers@, results@, n as nat),
            from.len() == entries@.len(),
            forall|a: int|
                #![trigger from[a]]
                0 <= a < from.len() ==> 0 <= from[a] < i && json::entry(entries@[a])
                    == all[from[a]] && is_last(all, from[a]),
            forall|a: int, b: int|
                #![trigger from[a], from[b]]
                0 <= a < b < from.len() ==> from[a] < from[b],
            forall|j: int|
                0 <= j < i && #[trigger] is_last(all, j) ==> exists|a: int|
                    0 <= a < from.len() && #[trigger] from[a] == j,
        decreases n - i,
    {
        let last: bool = occurs_last(tickers, i, n);
        assert(last == is_last(all, i as int)) by {
            if last {
                assert forall|j: int| i < j < all.len() implies (#[trigger] all[j]).0
                    != all[i as int].0 by {
                    assert(tickers@[j]@ != tickers@[i as int]@);
                }
            } else {
                let j = choose|j: int| i < j < n && (#[trigger] tickers@[j])@ == tickers@[i as int]@;
                assert(all[j].0 == all[i as int].0);
            }
        }
        let ghost prior = from;
        if last {
            let payload: Option<&'a [u8]> = match &results[i] {
                Some(b) => Some(wire::as_slice(b)),
                None => None,
            };
            entries.push((tickers[i].as_str(), payload));
            proof {
                from = from.push(i as int);
                assert(json::entry(entries@[prior.len() as int]) == all[i as int]);
                assert forall|j: int| 0 <= j < i + 1 && #[trigger] is_last(all, j) implies exists|
                    a: int,
                | 0 <= a < from.len() && #[trigger] from[a] == j by {
                    if j < i {
                        let a = choose|a: int| 0 <= a < prior.len() && #[trigger] prior[a] == j;
                        assert(from[a] == j);
                    } else {
                        assert(from[prior.len() as int] == j);
                    }
                }
            }
        }
        i += 1;
    }
    proof {
        lemma_last_entries(all, entries@, from);
    }
    entries
}

/// The body of a batch's answer in MessagePack, if there is memory for it.
fn msgpack_body(tickers: &Vec<String>, results: &Vec<Option<Bytes>>) -> (r: Option<Vec<u8>>)
    ensures
        r matches Some(v) ==> v@ == batch_text(Accept::MessagePack, tickers@, results@),
{
    json::pack(&batch_entries(tickers, results))
}

/// No later pair has the name of pair `i`.
pub open spec fn is_last(all: Seq<(Seq<char>, Option<Seq<u8>>)>, i: int) -> bool {
    0 <= i < all.len() && forall|j: int| i < j < all.len() ==> (#[trigger] all[j]).0 != all[i].0
}

/// Whether no ticker after index `i`, up to `n`, is the same.
fn occurs_last(tickers: &Vec<String>, i: usize, n: usize) -> (r: bool)
    requires
        i < n <= tickers@.len(),
    ensures
        r == forall|j: int| i < j < n ==> (#[trigger] tickers@[j])@ != tickers@[i as int]@,
{
    let mut j: usize = i + 1;
    while j < n
        invariant
            i < j <= n <= tickers@.len(),
            forall|k: int| i < k < j ==> (#[trigger] tickers@[k])@ != tickers@[i as int]@,
        decreases n - j,
    {
        if tickers[j] == tickers[i] {
            assert(tickers@[j as int]@ == tickers@[i as int]@);
            return false;
        }
        j += 1;
    }
    true
}

/// The last pairs of each name make the same map as all pairs, and have
/// different names.
proof fn lemma_last_entries(
    all: Seq<(Seq<char>, Option<Seq<u8>>)>,
    entries: Seq<(&str, Option<&[u8]>)>,
    from: Seq<int>,
)
    requires
        from.len() == entries.len(),
        forall|a: int|
            #![trigger from[a]]
            0 <= a < from.len() ==> 0 <= from[a] < all.len() && json::entry(entries[a])
                == all[from[a]] && is_last(all, from[a]),
        forall|a: int, b: int|
            #![trigger from[a], from[b]]
            0 <= a < b < from.len() ==> from[a] < from[b],
        forall|j: int|
            0 <= j < all.len() && #[trigger] is_last(all, j) ==> exists|a: int|
                0 <= a < from.len() && #[trigger] from[a] == j,
    ensures
        json::table(entries.map_values(|e: (&str, Option<&[u8]>)| json::entry(e)))
            == json::table(all),
        forall|i: int, j: int|
            0 <= i < j < entries.len() ==> (#[trigger] entries[i]).0@ != (#[trigger] entries[j]).0@,
{
    let kept = entries.map_values(|e: (&str, Option<&[u8]>)| json::entry(e));
    assert forall|i: int, j: int| 0 <= i < j < entries.len() implies (#[trigger] entries[i]).0@ != (
    #[trigger] entries[j]).0@ by {
        assert(from[i] < from[j]);
        assert(json::entry(entries[i]) == all[from[i]]);
        assert(json::entry(entries[j]) == all[from[j]]);
        assert(is_last(all, from[i]));
        assert(all[from[j]].0 != all[from[i]].0);
    }
    assert forall|k: Seq<char>| #[trigger] json::table(kept).contains_key(k) == json::table(
        all,
    ).contains_key(k) by {
        json::lemma_table_names(kept, k);
        json::lemma_table_names(all, k);
        if json::table(all).contains_key(k) {
            let i = choose|i: int| 0 <= i < all.len() && (#[trigger] all[i]).0 == k;
            let l = lemma_last_of(all, k, i);
            let a = choose|a: int| 0 <= a < from.len() && #[trigger] from[a] == l;
            assert(from[a] == l);
            assert(kept[a].0 == k);
        }
        if json::table(kept).contains_key(k) {
            let a = choose|a: int| 0 <= a < kept.len() && (#[trigger] kept[a]).0 == k;
            assert(kept[a] == all[from[a]]);
        }
    }
    assert forall|k: Seq<char>| json::table(all).contains_key(k) implies #[trigger] json::table(
        kept,
    )[k] == json::table(all)[k] by {
        json::lemma_table_names(all, k);
        let i = choose|i: int| 0 <= i < all.len() && (#[trigger] all[i]).0 == k;
        let l = lemma_last_of(all, k, i);
        let a = choose|a: int| 0 <= a < from.len() && #[trigger] from[a] == l;
        assert(from[a] == l);
        assert(kept[a] == all[l]);
        assert forall|b: int| a < b < kept.len() implies (#[trigger] kept[b]).0 != kept[a].0 by {
            assert(from[a] < from[b]);
            assert(kept[b] == all[from[b]]);
        }
        json::lemma_table_value(kept, a);
        json::lemma_table_value(all, l);
    }
    assert(json::table(kept) =~= json::table(all));
}

/// The last pair of a name that has one.
proof fn lemma_last_of(all: Seq<(Seq<char>, Option<Seq<u8>>)>, k: Seq<char>, i: int) -> (l: int)
    requires
        0 <= i < all.len(),
        all[i].0 == k,
    ensures
        is_last(all, l),
        all[l].0 == k,
    decreases all.len() - i,
{
    if is_last(all, i) {
        i
    } else {
        let j = choose|j: int| i < j < all.len() && (#[trigger] all[j]).0 == all[i].0;
        lemma_last_of(all, k, j)
    }
}

/// An answer with many snapshots.
#[derive(Debug)]
pub struct BatchReply {
    pub accept: Accept,
    pub body: Vec<u8>,
}

/// The answer to a batch, given its encoded body, if it could be encoded.
pub fn wrap_batch(accept: Accept, body: Option<Vec<u8>>) -> (r: Result<BatchReply, ApiError>)
    ensures
        match body {
            Some(b) => r == Ok::<BatchReply, ApiError>(BatchReply { accept, body: b }),
            None => r == Err::<BatchReply, ApiError>(
                ApiError::Internal(
                    match accept {
                        Accept::Json => "json",
                        Accept::MessagePack => "msgpack",
                    },
                ),
            ),
        },
{
    match body {
        Some(body) => Ok(BatchReply { accept, body }),
        None => match accept {
            Accept::Json => Err(ApiError::Internal("json")),
            Accept::MessagePack => Err(ApiError::Internal("msgpack")),
        },
    }
}

/// The answer to a batch, given what the store holds of each ticker. It fails
/// only where memory for a MessagePack body cannot be had.
pub fn finish_batch(accept: Accept, tickers: &Vec<String>, results: &Vec<Option<Bytes>>) -> (r:
    Result<BatchReply, ApiError>)
    ensures
        match r {
            Ok(reply) => reply.accept == accept && reply.body@ == batch_text(
                accept,
                tickers@,
                results@,
            ),
            Err(e) => accept == Accept::MessagePack && e == ApiError::Internal("msgpack"),
        },
{
    match accept {
        Accept::Json => wrap_batch(accept, json_body(tickers, results)),
        Accept::MessagePack => wrap_batch(accept, msgpack_body(tickers, results)),
    }
}

/// The body that tells an error: its name and its message.
pub fn error_body(e: &ApiError) -> (r: Option<Vec<u8>>)
    ensures
        ({
            let m = json::no_members().insert(
                "code"@,
                json::string_text(error::code_of(*e)@),
            ).insert("message"@, json::string_text(error::message_of(*e)));
            r matches Some(v) && v@ == json::object_text(m)
        }),
{
    let mut m = json::new_object();
    json::set_member(&mut m, "code".to_owned(), json::string(e.code().to_owned()));
    json::set_member(&mut m, "message".to_owned(), json::string(e.message()));
    json::write_object(&m)
}

/// A request without a valid token is answered `401`, whichever route it asks
/// for, and one without any token is such a request.
pub proof fn law_no_token_no_answer(headers: HeaderMap<HeaderValue>, cfg: ApiConfig, e: ApiError)
    requires
        is_refusal(headers, e),
    ensures
        error::status_of(e) == 401,
        auth::auth_header(headers) is None ==> !may_ask(headers, cfg),
{
}

/// Every ticker that was asked for is answered, in either form, and no other is.
pub proof fn law_batch_answers_each_ticker(
    tickers: Seq<String>,
    results: Seq<Option<Bytes>>,
    n: nat,
    name: Seq<char>,
)
    requires
        n <= tickers.len(),
        n <= results.len(),
    ensures
        batch_members(tickers, results, n).contains_key(name) <==> exists|i: int|
            0 <= i < n && (#[trigger] tickers[i])@ == name,
        json::table(batch_pairs(tickers, results, n)).contains_key(name) <==> exists|i: int|
            0 <= i < n && (#[trigger] tickers[i])@ == name,
    decreases n,
{
    let pairs = batch_pairs(tickers, results, n);
    json::lemma_table_names(pairs, name);
    if exists|i: int| 0 <= i < n && (#[trigger] tickers[i])@ == name {
        let i = choose|i: int| 0 <= i < n && (#[trigger] tickers[i])@ == name;
        assert(pairs[i].0 == name);
    }
    if n > 0 {
        law_batch_answers_each_ticker(tickers, results, (n - 1) as nat, name);
        let m = batch_members(tickers, results, (n - 1) as nat);
        if tickers[n - 1]@ == name {
            assert(batch_members(tickers, results, n).contains_key(name));
        } else if m.contains_key(name) {
            let i = choose|i: int| 0 <= i < n - 1 && (#[trigger] tickers[i])@ == name;
            assert(tickers[i]@ == name);
        }
    }
}

/// A ticker is answered by the snapshot found for it, or by nothing where none
/// was, in either form; where it was asked for twice, the last one counts.
pub proof fn law_batch_answers_with_snapshots(
    tickers: Seq<String>,
    results: Seq<Option<Bytes>>,
    n: nat,
    i: int,
)
    requires
        0 <= i < n,
        n <= tickers.len(),
        n <= results.len(),
        forall|j: int| i < j < n ==> (#[trigger] tickers[j])@ != tickers[i]@,
    ensures
        batch_members(tickers, results, n)[tickers[i]@] == cell_text(bytes_in(results[i])),
        json::table(batch_pairs(tickers, results, n))[tickers[i]@] == bytes_in(results[i]),
    decreases n,
{
    let pairs = batch_pairs(tickers, results, n);
    assert forall|j: int| i < j < pairs.len() implies (#[trigger] pairs[j]).0 != pairs[i].0 by {
        assert(tickers[j]@ != tickers[i]@);
    }
    json::lemma_table_value(pairs, i);
    if i < n - 1 {
        assert(tickers[n - 1]@ != tickers[i]@);
        law_batch_answers_with_snapshots(tickers, results, (n - 1) as nat, i);
    }
}

/// An entity tag is visible ASCII, so that it can stand in a header.
pub proof fn law_etag_is_visible(hash: u64, i: int)
    requires
        0 <= i < etag_text(hash).len(),
    ensures
        32 <= etag_text(hash)[i] as u32,
        (etag_text(hash)[i] as u32) < 127,
{
    reveal_strlit("\"");
    lemma_hex_visible(hash as nat, i - 1);
}

proof fn lemma_hex_visible(n: nat, i: int)
    ensures
        0 <= i < text::hex_number(n).len() ==> 48 <= text::hex_number(n)[i] as u32 <= 102,
    decreases n,
{
    if n >= 16 {
        lemma_hex_visible(n / 16, i);
    }
}

/// Trades are asked for from one to a thousand at a time, and not from a time on.
pub proof fn law_how_many_trades(q: TradesQuery)
    ensures
        trades_objection(q) is None <==> q.since is None && 1 <= q.limit <= 1000,
        q.since is Some ==> trades_objection(q) == Some(
            "historical range queries require the TimescaleDB backend (task #2)",
        ),
        q.since is None && (q.limit == 0 || q.limit > 1000) ==> trades_objection(q) == Some(
            "limit must be in 1..=1000",
        ),
{
}

/// Snapshots are asked for from one to five hundred at a time.
pub proof fn law_how_many_snapshots(tickers: Seq<Seq<char>>)
    ensures
        batch_objection(tickers) is None <==> 1 <= tickers.len() <= 500,
        tickers.len() == 0 ==> batch_objection(tickers) == Some("tickers list is empty"),
        tickers.len() > 500 ==> batch_objection(tickers) == Some("batch exceeds 500 tickers"),
{
}

/// A request may ask when its token is valid. One without a token is told that
/// it is missing, and one with another that it is not valid.
pub proof fn law_who_may_ask(headers: HeaderMap<HeaderValue>, cfg: ApiConfig, e: ApiError)
    ensures
        may_ask(headers, cfg) <==> auth::admitted(
            auth::auth_header(headers),
            tables::texts(cfg.valid_tokens),
        ) is Some,
        auth::auth_header(headers) is None ==> (is_refusal(headers, e) <==> e is MissingAuth),
        auth::auth_header(headers) is Some ==> (is_refusal(headers, e) <==> e is InvalidToken),
{
}

/// A tag is the hash in base sixteen between quotation marks.
pub proof fn law_etag_is_the_hash(hash: u64, payload: Seq<u8>)
    ensures
        etag_text(hash) == seq!['"'] + text::hex_number(hash as nat) + seq!['"'],
        etag_of(payload) == etag_text(
            slice_hash(shard::seeded(0x5af3, 0x01_07a4, 0xdead_beef, 0xcafe), payload),
        ),
{
    reveal_strlit("\"");
    assert("\""@ =~= seq!['"']);
}

/// What a batch shows of a snapshot: `null` where there is none, the snapshot
/// itself where it is JSON, and else its bytes in hexadecimal.
pub proof fn law_cells_show_the_snapshot(b: Seq<u8>)
    ensures
        cell_text(None) == text::bytes_of("null"),
        json::reparsed(b) matches Some(t) ==> cell_text(Some(b)) == t,
        json::reparsed(b) is None ==> cell_text(Some(b)) == json::object_text(
            Map::<Seq<char>, Seq<u8>>::empty().insert(
                "raw_hex"@,
                json::string_text(text::hex_bytes(b)),
            ),
        ),
{
}

/// A batch answers as many tickers as there are both tickers and snapshots.
pub proof fn law_batch_is_as_long_as_both(tickers: Seq<String>, results: Seq<Option<Bytes>>)
    ensures
        pair_count(tickers, results) <= tickers.len(),
        pair_count(tickers, results) <= results.len(),
        pair_count(tickers, results) == tickers.len() || pair_count(tickers, results)
            == results.len(),
        batch_text(Accept::Json, tickers, results) == json::object_text(
            batch_members(tickers, results, pair_count(tickers, results)),
        ),
        batch_text(Accept::MessagePack, tickers, results) == json::packed(
            json::table(batch_pairs(tickers, results, pair_count(tickers, results))),
        ),
{
}

/// A snapshot that is found is answered with as it is; a book that is not found
/// is not available, and of a quote or trades the ticker is not known.
pub proof fn law_snapshot_is_answered_with(
    kind: SnapshotKind,
    ticker: String,
    accept: Accept,
    found: Option<Bytes>,
    r: Result<SnapshotReply, ApiError>,
)
    requires
        call_ensures(finish_single, (kind, ticker, accept, found), r),
    ensures
        r is Ok <==> found is Some,
        found matches Some(b) ==> (r matches Ok(reply) && reply.body == b && reply.accept == accept
            && reply.cache_control == "max-age=1" && reply.etag@ == etag_of(wire::content(b))),
        found is None && kind == SnapshotKind::Book ==> (r matches Err(e) && e is BookNotAvailable),
        found is None && kind != SnapshotKind::Book ==> r == Err::<SnapshotReply, ApiError>(
            ApiError::TickerNotFound(ticker),
        ),
{
}

/// A body that was written is answered with in the form asked for; else the form
/// is named that failed.
pub proof fn law_batch_is_wrapped(
    accept: Accept,
    body: Option<Vec<u8>>,
    r: Result<BatchReply, ApiError>,
)
    requires
        call_ensures(wrap_batch, (accept, body), r),
    ensures
        r is Ok <==> body is Some,
        r matches Ok(reply) ==> reply.accept == accept && Some(reply.body) == body,
        body is None && accept == Accept::Json ==> r == Err::<BatchReply, ApiError>(
            ApiError::Internal("json"),
        ),
        body is None && accept == Accept::MessagePack ==> r == Err::<BatchReply, ApiError>(
            ApiError::Internal("msgpack"),
        ),
{
}

/// Without a valid token nothing is prepared; with one, a request for trades
/// whose count is in order is, in the form that its header asks for.
pub proof fn law_trades_are_prepared(
    headers: HeaderMap<HeaderValue>,
    cfg: ApiConfig,
    q: TradesQuery,
    r: Result<Accept, ApiError>,
)
    requires
        call_ensures(prepare_trades, (&headers, &cfg, &q), r),
    ensures
        r is Ok <==> may_ask(headers, cfg) && q.since is None && 1 <= q.limit <= 1000,
        r matches Ok(a) ==> a == content_neg::form_of(content_neg::accept_header(headers)),
        !may_ask(headers, cfg) ==> (r matches Err(e) && error::status_of(e) == 401),
        may_ask(headers, cfg) && r is Err ==> error::status_of(r->Err_0) == 400,
{
}

/// Without a valid token nothing is prepared; with one, a batch of one to five
/// hundred tickers is, in the order of the list.
pub proof fn law_batch_is_prepared(
    headers: HeaderMap<HeaderValue>,
    cfg: ApiConfig,
    q: BatchQuery,
    r: Result<(Accept, Vec<String>), ApiError>,
)
    requires
        call_ensures(prepare_batch, (&headers, &cfg, &q), r),
    ensures
        r is Ok <==> may_ask(headers, cfg) && 1 <= text::listed(q.tickers@).len() <= 500,
        r matches Ok((a, t)) ==> a == content_neg::form_of(content_neg::accept_header(headers))
            && text::texts_of(t@) == text::listed(q.tickers@),
        !may_ask(headers, cfg) ==> (r matches Err(e) && error::status_of(e) == 401),
        may_ask(headers, cfg) && r is Err ==> error::status_of(r->Err_0) == 400,
{
}

/// A single snapshot is prepared exactly with a valid token.
pub proof fn law_single_is_prepared(
    headers: HeaderMap<HeaderValue>,
    cfg: ApiConfig,
    r: Result<Accept, ApiError>,
)
    requires
        call_ensures(prepare_single, (&headers, &cfg), r),
    ensures
        r is Ok <==> may_ask(headers, cfg),
        r matches Ok(a) ==> a == content_neg::form_of(content_neg::accept_header(headers)),
        r matches Err(e) ==> error::status_of(e) == 401,
{
}

/// An error is answered with an object of its code and its message.
pub proof fn law_error_body_has_code_and_message(e: ApiError, r: Option<Vec<u8>>)
    requires
        call_ensures(error_body, (&e,), r),
    ensures
        r is Some,
        r->0@ == json::object_text(
            Map::<Seq<char>, Seq<u8>>::empty().insert(
                "code"@,
                json::string_text(error::code_of(e)@),
            ).insert("message"@, json::string_text(error::message_of(e))),
        ),
{
}

} // verus!
