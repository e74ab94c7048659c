//! Coalescing: within a window only the latest payload of a key goes out.
//!
//! Hot tickers change hundreds of times a second. The coalescer keeps the latest
//! payload of each key until the next flush. A kind whose window is zero is not
//! held back at all.
use crate::fanout::types::{Kind, PublishKey};
use crate::time;
use crate::time::Nanos;
use crate::wire;
use ahash::AHashMap;
use bytes::Bytes;
use vstd::prelude::*;

verus! {

/// The payload of each ticker in a table.
pub uninterp spec fn payloads(m: AHashMap<Bytes, Bytes>) -> Map<Seq<u8>, Seq<u8>>;

/// No payloads.
pub open spec fn no_payloads() -> Map<Seq<u8>, Seq<u8>> {
    Map::empty()
}

/// `AHashMap::new`: an empty table.
#[verifier::external_body]
fn new_table() -> (m: AHashMap<Bytes, Bytes>)
    ensures
        payloads(m) == no_payloads(),
{
    AHashMap::new()
}

/// `AHashMap::insert`: the payload of a ticker, whatever it was before.
#[verifier::external_body]
fn stage(m: &mut AHashMap<Bytes, Bytes>, ticker: Bytes, payload: Bytes)
    ensures
        payloads(*final(m)) == payloads(*old(m)).insert(
            wire::content(ticker),
            wire::content(payload),
        ),
{
    m.insert(ticker, payload);
}

/// `AHashMap::into_iter`, collected: every ticker once with its payload, in no
/// set order.
#[verifier::external_body]
fn unload(m: AHashMap<Bytes, Bytes>) -> (r: Vec<(Bytes, Bytes)>)
    ensures
        forall|i: int|
            0 <= i < r@.len() ==> payloads(m).contains_key(wire::content((#[trigger] r@[i]).0))
                && wire::content(r@[i].1) == payloads(m)[wire::content(r@[i].0)],
        forall|t: Seq<u8>| #[trigger]
            payloads(m).contains_key(t) ==> exists|i: int|
                0 <= i < r@.len() && wire::content((#[trigger] r@[i]).0) == t,
        forall|i: int, j: int|
            0 <= i < j < r@.len() ==> wire::content((#[trigger] r@[i]).0) != wire::content(
                (#[trigger] r@[j]).0,
            ),
{
    m.into_iter().collect()
}

/// The latest payload of each key, waiting for the next flush.
#[derive(Debug)]
pub struct Coalescer {
    quotes: AHashMap<Bytes, Bytes>,
    books: AHashMap<Bytes, Bytes>,
    trades: AHashMap<Bytes, Bytes>,
    quote_window: Nanos,
    book_window: Nanos,
    trade_window: Nanos,
}

impl View for Coalescer {
    type V = Map<(Kind, Seq<u8>), Seq<u8>>;

    closed spec fn view(&self) -> Map<(Kind, Seq<u8>), Seq<u8>> {
        Map::new(
            |k: (Kind, Seq<u8>)| payloads(self.table(k.0)).contains_key(k.1),
            |k: (Kind, Seq<u8>)| payloads(self.table(k.0))[k.1],
        )
    }
}

/// The key of a publication, as mathematics sees it.
pub open spec fn key_of(k: PublishKey) -> (Kind, Seq<u8>) {
    (k.kind, wire::content(k.ticker))
}

/// `out` holds every pending payload once, and nothing else.
pub open spec fn is_flush(
    out: Seq<(PublishKey, Bytes)>,
    pending: Map<(Kind, Seq<u8>), Seq<u8>>,
) -> bool {
    &&& forall|i: int|
        0 <= i < out.len() ==> pending.contains_key(key_of((#[trigger] out[i]).0))
            && wire::content(out[i].1) == pending[key_of(out[i].0)]
    &&& forall|k: (Kind, Seq<u8>)| #[trigger]
        pending.contains_key(k) ==> exists|i: int|
            0 <= i < out.len() && key_of((#[trigger] out[i]).0) == k
    &&& forall|i: int, j: int|
        0 <= i < j < out.len() ==> key_of((#[trigger] out[i]).0) != key_of((#[trigger] out[j]).0)
}

/// The smallest window that is not zero.
pub open spec fn shortest(q: Nanos, b: Nanos, t: Nanos) -> Option<Nanos> {
    let qb = if q == 0 || (b != 0 && b < q) {
        b
    } else {
        q
    };
    let all = if qb == 0 || (t != 0 && t < qb) {
        t
    } else {
        qb
    };
    if all == 0 {
        None
    } else {
        Some(all)
    }
}

impl Coalescer {
    spec fn table(&self, kind: Kind) -> AHashMap<Bytes, Bytes> {
        match kind {
            Kind::Quote => self.quotes,
            Kind::Book => self.books,
            Kind::Trade => self.trades,
        }
    }

    /// How long a kind is held back.
    pub closed spec fn window(&self, kind: Kind) -> Nanos {
        match kind {
            Kind::Quote => self.quote_window,
            Kind::Book => self.book_window,
            Kind::Trade => self.trade_window,
        }
    }

    /// Nothing pending; quotes are held back for 50 ms, books for 100 ms, and
    /// trades not at all, as every trade matters.
    pub fn new() -> (r: Self)
        ensures
            r@ == Map::<(Kind, Seq<u8>), Seq<u8>>::empty(),
            r.window(Kind::Quote) == 50 * time::MILLISECOND,
            r.window(Kind::Book) == 100 * time::MILLISECOND,
            r.window(Kind::Trade) == 0,
    {
        let r = Coalescer {
            quotes: new_table(),
            books: new_table(),
            trades: new_table(),
            quote_window: 50 * time::MILLISECOND,
            book_window: 100 * time::MILLISECOND,
            trade_window: 0,
        };
        assert(r@ =~= Map::<(Kind, Seq<u8>), Seq<u8>>::empty());
        r
    }

    /// Sets how long a kind is held back; zero for not at all.
    pub fn set_window(&mut self, kind: Kind, window: Nanos)
        ensures
            final(self)@ == old(self)@,
            final(self).window(kind) == window,
            forall|k: Kind| k != kind ==> final(self).window(k) == old(self).window(k),
    {
        match kind {
            Kind::Quote => {
                self.quote_window = window;
            },
            Kind::Book => {
                self.book_window = window;
            },
            Kind::Trade => {
                self.trade_window = window;
            },
        }
        assert(self@ =~= old(self)@);
    }

    /// How long a kind is held back.
    pub fn window_for(&self, kind: Kind) -> (r: Nanos)
        ensures
            r == self.window(kind),
    {
        match kind {
            Kind::Quote => self.quote_window,
            Kind::Book => self.book_window,
            Kind::Trade => self.trade_window,
        }
    }

    /// Takes in one payload. Returns it when it is to be published at once;
    /// else it replaces what waits under its key.
    pub fn submit(&mut self, key: PublishKey, payload: Bytes) -> (r: Option<(PublishKey, Bytes)>)
        ensures
            forall|k: Kind| final(self).window(k) == old(self).window(k),
            if old(self).window(key.kind) == 0 {
                r == Some((key, payload)) && final(self)@ == old(self)@
            } else {
                r is None && final(self)@ == old(self)@.insert(key_of(key), wire::content(payload))
            },
    {
        if self.window_for(key.kind) == 0 {
            return Some((key, payload));
        }
        let ghost k = key_of(key);
        let ghost p = wire::content(payload);
        match key.kind {
            Kind::Quote => stage(&mut self.quotes, key.ticker, payload),
            Kind::Book => stage(&mut self.books, key.ticker, payload),
            Kind::Trade => stage(&mut self.trades, key.ticker, payload),
        }
        assert(self@ =~= old(self)@.insert(k, p));
        None
    }

    /// Takes out everything that waits, to be published.
    pub fn flush_once(&mut self) -> (r: Vec<(PublishKey, Bytes)>)
        ensures
            is_flush(r@, old(self)@),
            final(self)@ == Map::<(Kind, Seq<u8>), Seq<u8>>::empty(),
            forall|k: Kind| final(self).window(k) == old(self).window(k),
    {
        let ghost pending = self@;
        let mut quotes = new_table();
        let mut books = new_table();
        let mut trades = new_table();
        std::mem::swap(&mut quotes, &mut self.quotes);
        std::mem::swap(&mut books, &mut self.books);
        std::mem::swap(&mut trades, &mut self.trades);
        assert(self@ =~= Map::<(Kind, Seq<u8>), Seq<u8>>::empty());
        let ghost tq = quotes;
        let ghost tb = books;
        let ghost tt = trades;
        let mut out: Vec<(PublishKey, Bytes)> = Vec::new();
        append_kind(&mut out, Kind::Quote, quotes);
        let ghost o1 = out@;
        append_kind(&mut out, Kind::Book, books);
        let ghost o2 = out@;
        append_kind(&mut out, Kind::Trade, trades);
        proof {
            assert forall|k: (Kind, Seq<u8>)| #[trigger] pending.contains_key(k) implies exists|
                i: int,
            | 0 <= i < out@.len() && key_of((#[trigger] out@[i]).0) == k by {
                match k.0 {
                    Kind::Quote => {
                        assert(payloads(tq).contains_key(k.1));
                        let i = choose|i: int|
                            0 <= i < o1.len() && key_of((#[trigger] o1[i]).0) == k;
                        assert(o2[i] == o1[i]);
                        assert(out@[i] == o2[i]);
                    },
                    Kind::Book => {
                        assert(payloads(tb).contains_key(k.1));
                        let i = choose|i: int|
                            o1.len() <= i < o2.len() && key_of((#[trigger] o2[i]).0) == k;
                        assert(out@[i] == o2[i]);
                    },
                    Kind::Trade => {
                        assert(payloads(tt).contains_key(k.1));
                    },
                }
            }
        }
        out
    }

    /// The smallest window that is not zero.
    pub fn min_nonzero_window(&self) -> (r: Option<Nanos>)
        ensures
            r == shortest(
                self.window(Kind::Quote),
                self.window(Kind::Book),
                self.window(Kind::Trade),
            ),
    {
        let q: Nanos = self.quote_window;
        let b: Nanos = self.book_window;
        let t: Nanos = self.trade_window;
        let qb: Nanos = if q == 0 || (b != 0 && b < q) {
            b
        } else {
            q
        };
        let all: Nanos = if qb == 0 || (t != 0 && t < qb) {
            t
        } else {
            qb
        };
        if all == 0 {
            None
        } else {
            Some(all)
        }
    }

    /// How often to flush: at the pace of the smallest window that is not zero,
    /// or every 50 ms where all are.
    pub fn tick(&self) -> (r: Nanos)
        ensures
            r == match shortest(
                self.window(Kind::Quote),
                self.window(Kind::Book),
                self.window(Kind::Trade),
            ) {
                Some(w) => w as int,
                None => 50 * time::MILLISECOND,
            },
    {
        match self.min_nonzero_window() {
            Some(w) => w,
            None => 50 * time::MILLISECOND,
        }
    }
}

impl Default for Coalescer {
    fn default() -> (r: Self)
        ensures
            r@ == Map::<(Kind, Seq<u8>), Seq<u8>>::empty(),
            r.window(Kind::Quote) == 50 * time::MILLISECOND,
            r.window(Kind::Book) == 100 * time::MILLISECOND,
            r.window(Kind::Trade) == 0,
    {
        Coalescer::new()
    }
}

/// Appends what a table holds, under keys of one kind.
fn append_kind(out: &mut Vec<(PublishKey, Bytes)>, kind: Kind, table: AHashMap<Bytes, Bytes>)
    ensures
        old(out)@.len() <= final(out)@.len(),
        forall|i: int| 0 <= i < old(out)@.len() ==> #[trigger] final(out)@[i] == old(out)@[i],
        forall|i: int|
            old(out)@.len() <= i < final(out)@.len() ==> (#[trigger] final(out)@[i]).0.kind == kind
                && payloads(table).contains_key(wire::content(final(out)@[i].0.ticker))
                && wire::content(final(out)@[i].1) == payloads(table)[wire::content(
                final(out)@[i].0.ticker,
            )],
        forall|t: Seq<u8>| #[trigger]
            payloads(table).contains_key(t) ==> exists|i: int|
                old(out)@.len() <= i < final(out)@.len() && key_of((#[trigger] final(out)@[i]).0)
                    == (kind, t),
        forall|i: int, j: int|
            old(out)@.len() <= i < j < final(out)@.len() ==> key_of((#[trigger] final(out)@[i]).0)
                != key_of((#[trigger] final(out)@[j]).0),
{
    let ghost start = out@;
    let ghost n = start.len() as int;
    let pairs = unload(table);
    let ghost all = pairs@;
    for pair in it: pairs
        invariant
            it.seq() == all,
            start == old(out)@,
            n == start.len(),
            out@.len() == n + it.index(),
            forall|i: int| 0 <= i < n ==> #[trigger] out@[i] == start[i],
            forall|i: int|
                n <= i < out@.len() ==> (#[trigger] out@[i]).0.kind == kind && out@[i].0.ticker
                    == all[i - n].0 && out@[i].1 == all[i - n].1,
    {
        let ghost k = it.index();
        assert(pair == all[k]);
        let (ticker, payload) = pair;
        out.push((PublishKey::new(kind, ticker), payload));
    }
    proof {
        assert forall|t: Seq<u8>| #[trigger] payloads(table).contains_key(t) implies exists|i: int|
            n <= i < out@.len() && key_of((#[trigger] out@[i]).0) == (kind, t) by {
            let j = choose|j: int| 0 <= j < all.len() && wire::content((#[trigger] all[j]).0) == t;
            assert(wire::content(all[j].0) == t);
            assert(key_of(out@[n + j].0) == (kind, t));
        }
        assert forall|i: int, j: int| n <= i < j < out@.len() implies key_of(
            (#[trigger] out@[i]).0,
        ) != key_of((#[trigger] out@[j]).0) by {
            assert(wire::content(all[i - n].0) != wire::content(all[j - n].0));
        }
    }
}

/// The latest payload wins: of two under one key, the earlier is as if it had
/// never been.
pub proof fn law_last_payload_wins(
    pending: Map<(Kind, Seq<u8>), Seq<u8>>,
    key: (Kind, Seq<u8>),
    first: Seq<u8>,
    second: Seq<u8>,
)
    ensures
        pending.insert(key, first).insert(key, second) == pending.insert(key, second),
{
    assert(pending.insert(key, first).insert(key, second) =~= pending.insert(key, second));
}

/// A flush publishes as many payloads as keys wait: one each.
pub proof fn law_flush_is_one_per_key(
    out: Seq<(PublishKey, Bytes)>,
    pending: Map<(Kind, Seq<u8>), Seq<u8>>,
)
    requires
        is_flush(out, pending),
    ensures
        out.len() == pending.len(),
{
    let keys = out.map_values(|e: (PublishKey, Bytes)| key_of(e.0));
    assert forall|i: int, j: int| 0 <= i < j < keys.len() implies keys[i] != keys[j] by {
        assert(key_of(out[i].0) != key_of(out[j].0));
    }
    keys.unique_seq_to_set();
    assert(keys.to_set() =~= pending.dom()) by {
        assert forall|k: (Kind, Seq<u8>)|
            keys.to_set().contains(k) == pending.dom().contains(k) by {
            if pending.contains_key(k) {
                let i = choose|i: int| 0 <= i < out.len() && key_of((#[trigger] out[i]).0) == k;
                assert(keys[i] == k);
            }
            if keys.contains(k) {
                let i = choose|i: int| 0 <= i < keys.len() && keys[i] == k;
                assert(key_of(out[i].0) == k);
            }
        }
    }
}

/// The tick is never longer than a window that holds something back, so each
/// kind is flushed at least once per window.
pub proof fn law_tick_serves_every_window(q: Nanos, b: Nanos, t: Nanos)
    ensures
        q != 0 ==> shortest(q, b, t) is Some && shortest(q, b, t)->0 <= q,
        b != 0 ==> shortest(q, b, t) is Some && shortest(q, b, t)->0 <= b,
        t != 0 ==> shortest(q, b, t) is Some && shortest(q, b, t)->0 <= t,
        shortest(q, b, t) matches Some(w) ==> w != 0 && (w == q || w == b || w == t),
{
}

/// What a flush gives out under a kind and a ticker is what was pending under
/// that kind and that ticker, and whatever was pending is given out.
pub proof fn law_flush_gives_out_what_was_pending(
    out: Seq<(PublishKey, Bytes)>,
    pending: Map<(Kind, Seq<u8>), Seq<u8>>,
    i: int,
    kind: Kind,
    ticker: Seq<u8>,
)
    requires
        is_flush(out, pending),
        0 <= i < out.len(),
    ensures
        pending.contains_key((out[i].0.kind, wire::content(out[i].0.ticker))),
        pending[(out[i].0.kind, wire::content(out[i].0.ticker))] == wire::content(out[i].1),
        pending.contains_key((kind, ticker)) ==> exists|j: int|
            0 <= j < out.len() && (#[trigger] out[j]).0.kind == kind && wire::content(
                out[j].0.ticker,
            ) == ticker && wire::content(out[j].1) == pending[(kind, ticker)],
{
    assert(key_of(out[i].0) == (out[i].0.kind, wire::content(out[i].0.ticker)));
    if pending.contains_key((kind, ticker)) {
        let j = choose|j: int| 0 <= j < out.len() && key_of((#[trigger] out[j]).0) == (kind, ticker);
        assert(out[j].0.kind == kind);
    }
}

/// The loop ticks as often as the shortest window that is not zero, and where all
/// are zero twenty times a second.
pub proof fn law_how_often_it_ticks(c: Coalescer, r: Nanos)
    requires
        call_ensures(Coalescer::tick, (&c,), r),
    ensures
        r > 0,
        forall|k: Kind| c.window(k) != 0 ==> r <= #[trigger] c.window(k),
        c.window(Kind::Quote) == 0 && c.window(Kind::Book) == 0 && c.window(Kind::Trade) == 0
            ==> r == 50_000_000,
        r == 50_000_000 || r == c.window(Kind::Quote) || r == c.window(Kind::Book) || r == c.window(
            Kind::Trade,
        ),
{
    law_tick_serves_every_window(
        c.window(Kind::Quote),
        c.window(Kind::Book),
        c.window(Kind::Trade),
    );
    assert forall|k: Kind| c.window(k) != 0 implies r <= #[trigger] c.window(k) by {
        match k {
            Kind::Quote => {},
            Kind::Book => {},
            Kind::Trade => {},
        }
    }
}

/// A new coalescer holds quotes back for a twentieth of a second, books for a
/// tenth, and trades not at all.
pub proof fn law_windows_at_first(c: Coalescer)
    requires
        call_ensures(Coalescer::new, (), c),
    ensures
        c.window(Kind::Quote) == 50_000_000,
        c.window(Kind::Book) == 100_000_000,
        c.window(Kind::Trade) == 0,
        forall|k: (Kind, Seq<u8>)| !(#[trigger] c@.contains_key(k)),
{
}

/// Without a window a payload passes at once and nothing is kept; with one it is
/// kept under its kind and ticker, and all else that was kept stays.
pub proof fn law_payload_passes_or_waits(key: PublishKey, payload: Bytes)
    ensures
        forall|c: &mut Coalescer, r: Option<(PublishKey, Bytes)>| #[trigger]
            call_ensures(Coalescer::submit, (c, key, payload), r) ==> {
                &&& (*c).window(key.kind) == 0 ==> r == Some((key, payload)) && final(c)@ == (*c)@
                &&& (*c).window(key.kind) != 0 ==> r is None && final(c)@ == (*c)@.insert(
                    (key.kind, wire::content(key.ticker)),
                    wire::content(payload),
                )
            },
{
}

/// A flush gives out all that was kept, and keeps nothing.
pub proof fn law_flush_empties()
    ensures
        forall|c: &mut Coalescer, r: Vec<(PublishKey, Bytes)>| #[trigger]
            call_ensures(Coalescer::flush_once, (c,), r) ==> {
                &&& is_flush(r@, (*c)@)
                &&& forall|k: (Kind, Seq<u8>)| !(#[trigger] final(c)@.contains_key(k))
            },
{
}

/// Setting a window changes that of its kind and no other.
pub proof fn law_windows_are_set_one_by_one(kind: Kind, other: Kind, window: Nanos)
    requires
        other != kind,
    ensures
        forall|c: &mut Coalescer| #[trigger]
            call_ensures(Coalescer::set_window, (c, kind, window), ()) ==> final(c).window(kind)
                == window && final(c).window(other) == (*c).window(other) && final(c)@ == (*c)@,
{
}

} // verus!
