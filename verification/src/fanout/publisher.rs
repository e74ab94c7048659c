//! What a publication is made of, and what comes of it.
//!
//! A payload goes to a subject and is stored under a key. Both are attempted
//! whatever the other does; whoever holds the connections performs them.
use crate::fanout::types;
use crate::fanout::types::PublishKey;
use crate::text;
use crate::wire;
use bytes::Bytes;
use vstd::prelude::*;

verus! {

/// A publication that failed.
#[derive(Debug, PartialEq, Eq)]
pub enum FanoutError {
    /// The live update could not be published.
    Nats(String),
    /// No connection for live updates.
    NatsConnect(String),
    /// The snapshot could not be stored.
    Redis(String),
    /// The configuration makes no sense.
    Config(&'static str),
}

/// The message of a failed publication.
pub open spec fn error_text(e: FanoutError) -> Seq<char> {
    match e {
        FanoutError::Nats(m) => "NATS error: "@ + m@,
        FanoutError::NatsConnect(m) => "NATS connection error: "@ + m@,
        FanoutError::Redis(m) => "Redis error: "@ + m@,
        FanoutError::Config(m) => "invalid configuration: "@ + m@,
    }
}

impl FanoutError {
    /// The message of the error.
    pub fn message(&self) -> (r: String)
        ensures
            r@ == error_text(*self),
    {
        match self {
            FanoutError::Nats(m) => "NATS error: ".to_owned().concat(m.as_str()),
            FanoutError::NatsConnect(m) => "NATS connection error: ".to_owned().concat(m.as_str()),
            FanoutError::Redis(m) => "Redis error: ".to_owned().concat(m.as_str()),
            FanoutError::Config(m) => "invalid configuration: ".to_owned().concat(m),
        }
    }
}

/// What to send where.
#[derive(Debug)]
pub struct Publication {
    /// Subject of the live update.
    pub subject: String,
    /// Words of the command that stores the snapshot.
    pub store: Vec<Bytes>,
    /// Payload of the live update.
    pub payload: Bytes,
}

/// The command that stores a snapshot, with its time to live in seconds.
pub open spec fn store_command(
    key: PublishKey,
    payload: Seq<u8>,
    ttl_seconds: Option<u64>,
) -> Seq<Seq<u8>> {
    let set = seq![
        text::bytes_of("SET"),
        vstd::utf8::encode_utf8(types::snapshot_key(key.kind, wire::content(key.ticker))),
        payload,
    ];
    match ttl_seconds {
        Some(ttl) => set + seq![
            text::bytes_of("EX"),
            vstd::utf8::encode_utf8(text::decimal(ttl as nat)),
        ],
        None => set,
    }
}

/// The words of a command are these.
pub open spec fn spells(words: Seq<Bytes>, expected: Seq<Seq<u8>>) -> bool {
    words.len() == expected.len() && forall|i: int|
        0 <= i < words.len() ==> wire::content(#[trigger] words[i]) == expected[i]
}

/// What to send where for one payload. The snapshot lives for `ttl_seconds`, or
/// for good.
pub fn plan(key: &PublishKey, payload: Bytes, ttl_seconds: Option<u64>) -> (r: Publication)
    ensures
        r.subject@ == types::subject(key.kind, wire::content(key.ticker)),
        wire::content(r.payload) == wire::content(payload),
        spells(r.store@, store_command(*key, wire::content(payload), ttl_seconds)),
{
    let mut store: Vec<Bytes> = Vec::new();
    store.push(Bytes::copy_from_slice("SET".as_bytes()));
    store.push(Bytes::copy_from_slice(key.redis_key().as_str().as_bytes()));
    store.push(payload.clone());
    if let Some(ttl) = ttl_seconds {
        store.push(Bytes::copy_from_slice("EX".as_bytes()));
        let mut digits: String = String::new();
        text::push_decimal(&mut digits, ttl);
        assert(digits@ =~= text::decimal(ttl as nat));
        store.push(Bytes::copy_from_slice(digits.as_str().as_bytes()));
    }
    Publication { subject: key.nats_subject(), store, payload }
}

/// What comes of a publication, given what came of its two halves: the live
/// update's failure is told first.
pub fn outcome(nats: Result<(), String>, redis: Result<(), String>) -> (r: Result<(), FanoutError>)
    ensures
        r == match nats {
            Err(m) => Err::<(), FanoutError>(FanoutError::Nats(m)),
            Ok(_) => match redis {
                Err(m) => Err(FanoutError::Redis(m)),
                Ok(_) => Ok(()),
            },
        },
{
    if let Err(m) = nats {
        return Err(FanoutError::Nats(m));
    }
    if let Err(m) = redis {
        return Err(FanoutError::Redis(m));
    }
    Ok(())
}

/// Publishes nowhere and remembers what it was given.
#[derive(Debug)]
pub struct NoopSink {
    pub calls: Vec<(PublishKey, Bytes)>,
}

impl NoopSink {
    /// A sink that was given nothing.
    pub fn new() -> (r: Self)
        ensures
            r.calls@.len() == 0,
    {
        NoopSink { calls: Vec::new() }
    }

    /// Remembers a publication. Never fails.
    pub fn publish(&mut self, key: PublishKey, payload: Bytes) -> (r: Result<(), FanoutError>)
        ensures
            r == Ok::<(), FanoutError>(()),
            final(self).calls@ == old(self).calls@.push((key, payload)),
    {
        self.calls.push((key, payload));
        Ok(())
    }

    /// Hands out what was remembered, and forgets it.
    pub fn take_calls(&mut self) -> (r: Vec<(PublishKey, Bytes)>)
        ensures
            r@ == old(self).calls@,
            final(self).calls@.len() == 0,
    {
        let mut out: Vec<(PublishKey, Bytes)> = Vec::new();
        std::mem::swap(&mut out, &mut self.calls);
        out
    }
}

impl Default for NoopSink {
    fn default() -> (r: Self)
        ensures
            r.calls@.len() == 0,
    {
        NoopSink::new()
    }
}

/// A snapshot is stored by `SET key payload`, and with a lifetime by
/// `SET key payload EX seconds`.
pub proof fn law_store_command_is_spelled(
    words: Seq<Bytes>,
    key: PublishKey,
    payload: Seq<u8>,
    ttl_seconds: Option<u64>,
)
    requires
        spells(words, store_command(key, payload, ttl_seconds)),
    ensures
        words.len() == if ttl_seconds is Some {
            5nat
        } else {
            3
        },
        wire::content(words[0]) == text::bytes_of("SET"),
        wire::content(words[1]) == vstd::utf8::encode_utf8(
            types::snapshot_key(key.kind, wire::content(key.ticker)),
        ),
        wire::content(words[2]) == payload,
        ttl_seconds matches Some(ttl) ==> wire::content(words[3]) == text::bytes_of("EX")
            && wire::content(words[4]) == vstd::utf8::encode_utf8(text::decimal(ttl as nat)),
{
}

/// How errors are worded.
pub proof fn law_errors_are_worded(m: String, fixed: &'static str)
    ensures
        error_text(FanoutError::Nats(m)) == "NATS error: "@ + m@,
        error_text(FanoutError::NatsConnect(m)) == "NATS connection error: "@ + m@,
        error_text(FanoutError::Redis(m)) == "Redis error: "@ + m@,
        error_text(FanoutError::Config(fixed)) == "invalid configuration: "@ + fixed@,
{
}

/// A publication succeeds when both sides did. The failure of the live side is
/// told before that of the store.
pub proof fn law_both_sides_must_succeed(
    nats: Result<(), String>,
    redis: Result<(), String>,
    r: Result<(), FanoutError>,
)
    requires
        call_ensures(outcome, (nats, redis), r),
    ensures
        r is Ok <==> nats is Ok && redis is Ok,
        nats matches Err(m) ==> r == Err::<(), FanoutError>(FanoutError::Nats(m)),
        nats is Ok && redis is Err ==> r == Err::<(), FanoutError>(FanoutError::Redis(redis->Err_0)),
{
}

/// What is published goes out under the subject of its kind and ticker, as it is,
/// and is stored under the key of its kind and ticker.
pub proof fn law_publication_is_planned(
    key: PublishKey,
    payload: Bytes,
    ttl_seconds: Option<u64>,
    r: Publication,
)
    requires
        call_ensures(plan, (&key, payload, ttl_seconds), r),
    ensures
        r.subject@ == types::subject(key.kind, wire::content(key.ticker)),
        wire::content(r.payload) == wire::content(payload),
        r.store@.len() >= 3,
        wire::content(r.store@[0]) == text::bytes_of("SET"),
        wire::content(r.store@[1]) == vstd::utf8::encode_utf8(
            types::snapshot_key(key.kind, wire::content(key.ticker)),
        ),
        wire::content(r.store@[2]) == wire::content(payload),
        r.store@.len() == 5 <==> ttl_seconds is Some,
{
    law_store_command_is_spelled(r.store@, key, wire::content(payload), ttl_seconds);
}

} // verus!
