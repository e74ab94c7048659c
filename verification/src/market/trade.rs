//! The most recent trades of each ticker.
//!
//! Each ticker has a tape: its last trades, oldest first, up to a limit. Durable
//! storage is not a concern here.
use crate::decimal::Decimal;
use crate::protocol::enums::{TradeAggressor, TradeCondition};
use crate::protocol::types::Trade;
use crate::text;
use crate::wire;
use ahash::RandomState;
use bytes::Bytes;
use dashmap::DashMap;
use std::collections::VecDeque;
use vstd::prelude::*;

verus! {

/// A trade on a tape.
#[derive(Debug, PartialEq)]
pub struct TradeRecord {
    pub time_hhmmss: u32,
    pub price: Decimal,
    pub quantity: u64,
    pub trade_id: Bytes,
    pub broker_buy_id: u32,
    pub broker_sell_id: u32,
    pub condition: TradeCondition,
    pub aggressor: TradeAggressor,
}

/// Two records say the same.
pub open spec fn same_record(a: TradeRecord, b: TradeRecord) -> bool {
    &&& a.time_hhmmss == b.time_hhmmss
    &&& a.price@ == b.price@
    &&& a.quantity == b.quantity
    &&& wire::content(a.trade_id) == wire::content(b.trade_id)
    &&& a.broker_buy_id == b.broker_buy_id
    &&& a.broker_sell_id == b.broker_sell_id
    &&& a.condition == b.condition
    &&& a.aggressor == b.aggressor
}

/// The record says what the trade says.
pub open spec fn records(r: TradeRecord, t: Trade) -> bool {
    &&& r.time_hhmmss == t.time_hhmmss
    &&& r.price@ == t.price@
    &&& r.quantity == t.quantity
    &&& wire::content(r.trade_id) == wire::content(t.trade_id)
    &&& r.broker_buy_id == t.broker_buy_id
    &&& r.broker_sell_id == t.broker_sell_id
    &&& r.condition == t.condition
    &&& r.aggressor == t.aggressor
}

impl Clone for TradeRecord {
    fn clone(&self) -> (r: Self)
        ensures
            same_record(r, *self),
    {
        TradeRecord {
            time_hhmmss: self.time_hhmmss,
            price: self.price.clone(),
            quantity: self.quantity,
            trade_id: self.trade_id.clone(),
            broker_buy_id: self.broker_buy_id,
            broker_sell_id: self.broker_sell_id,
            condition: self.condition,
            aggressor: self.aggressor,
        }
    }
}

impl TradeRecord {
    /// The record of a trade.
    pub fn of(t: &Trade) -> (r: Self)
        ensures
            records(r, *t),
            r.time_hhmmss == t.time_hhmmss,
            r.price@ == t.price@,
            r.quantity == t.quantity,
            wire::content(r.trade_id) == wire::content(t.trade_id),
            r.broker_buy_id == t.broker_buy_id,
            r.broker_sell_id == t.broker_sell_id,
            r.condition == t.condition,
            r.aggressor == t.aggressor,
    {
        TradeRecord {
            time_hhmmss: t.time_hhmmss,
            price: t.price.clone(),
            quantity: t.quantity,
            trade_id: t.trade_id.clone(),
            broker_buy_id: t.broker_buy_id,
            broker_sell_id: t.broker_sell_id,
            condition: t.condition,
            aggressor: t.aggressor,
        }
    }
}

impl From<&Trade> for TradeRecord {
    fn from(t: &Trade) -> (r: Self)
        ensures
            records(r, *t),
            r.time_hhmmss == t.time_hhmmss,
            r.price@ == t.price@,
            r.quantity == t.quantity,
            wire::content(r.trade_id) == wire::content(t.trade_id),
            r.broker_buy_id == t.broker_buy_id,
            r.broker_sell_id == t.broker_sell_id,
            r.condition == t.condition,
            r.aggressor == t.aggressor,
    {
        TradeRecord::of(t)
    }
}

impl vstd::std_specs::convert::FromSpecImpl<&Trade> for TradeRecord {
    open spec fn obeys_from_spec() -> bool {
        false
    }

    open spec fn from_spec(t: &Trade) -> Self {
        arbitrary()
    }
}

/// The tape of each ticker in a table.
pub uninterp spec fn tapes(m: DashMap<Bytes, VecDeque<TradeRecord>, RandomState>) -> Map<
    Seq<u8>,
    VecDeque<TradeRecord>,
>;

/// No tapes.
pub open spec fn no_tapes() -> Map<Seq<u8>, VecDeque<TradeRecord>> {
    Map::empty()
}

/// `DashMap::with_hasher`: an empty table, hashed by `RandomState::default`.
#[verifier::external_body]
fn new_tapes() -> (m: DashMap<Bytes, VecDeque<TradeRecord>, RandomState>)
    ensures
        tapes(m) == no_tapes(),
{
    DashMap::with_hasher(RandomState::default())
}

/// `DashMap::remove`: takes a ticker's tape out. The table is borrowed mutably,
/// so no one else sees it without.
#[verifier::external_body]
fn take_tape(
    m: &mut DashMap<Bytes, VecDeque<TradeRecord>, RandomState>,
    ticker: &[u8],
) -> (r: Option<(Bytes, VecDeque<TradeRecord>)>)
    ensures
        match r {
            Some((k, v)) => tapes(*old(m)).contains_key(ticker@) && wire::content(k) == ticker@
                && v == tapes(*old(m))[ticker@],
            None => !tapes(*old(m)).contains_key(ticker@),
        },
        tapes(*final(m)) == tapes(*old(m)).remove(ticker@),
{
    m.remove(ticker)
}

/// `DashMap::insert`: puts a ticker's tape in.
#[verifier::external_body]
fn put_tape(
    m: &mut DashMap<Bytes, VecDeque<TradeRecord>, RandomState>,
    ticker: Bytes,
    tape: VecDeque<TradeRecord>,
)
    ensures
        tapes(*final(m)) == tapes(*old(m)).insert(wire::content(ticker), tape),
{
    m.insert(ticker, tape);
}

/// `DashMap::view`: hands a ticker's tape, while its shard is locked, to
/// [`last_records`].
#[verifier::external_body]
fn read_tape(
    m: &DashMap<Bytes, VecDeque<TradeRecord>, RandomState>,
    ticker: &[u8],
    limit: usize,
) -> (r: Option<Vec<TradeRecord>>)
    ensures
        match r {
            Some(v) => tapes(*m).contains_key(ticker@) && is_tail(v@, tapes(*m)[ticker@]@, limit),
            None => !tapes(*m).contains_key(ticker@),
        },
{
    m.view(ticker, |_, tape| last_records(tape, limit))
}

/// `DashMap::view`: hands a ticker's tape, while its shard is locked, to
/// [`record_count`].
#[verifier::external_body]
fn tape_len(m: &DashMap<Bytes, VecDeque<TradeRecord>, RandomState>, ticker: &[u8]) -> (r: Option<
    usize,
>)
    ensures
        match r {
            Some(n) => tapes(*m).contains_key(ticker@) && n == tapes(*m)[ticker@]@.len(),
            None => !tapes(*m).contains_key(ticker@),
        },
{
    m.view(ticker, |_, tape| record_count(tape))
}

/// `DashMap::len`: how many tickers have a tape.
#[verifier::external_body]
fn count_tapes(m: &DashMap<Bytes, VecDeque<TradeRecord>, RandomState>) -> (r: usize)
    ensures
        r == tapes(*m).len(),
{
    m.len()
}

/// `v` repeats the last `limit` records of a tape, or all where it is shorter,
/// oldest first.
pub open spec fn is_tail(v: Seq<TradeRecord>, tape: Seq<TradeRecord>, limit: usize) -> bool {
    let n = if limit < tape.len() {
        limit as int
    } else {
        tape.len() as int
    };
    v.len() == n && forall|i: int|
        0 <= i < n ==> same_record(#[trigger] v[i], tape[tape.len() - n + i])
}

/// The last `limit` records of a tape, oldest first.
pub fn last_records(tape: &VecDeque<TradeRecord>, limit: usize) -> (r: Vec<TradeRecord>)
    ensures
        is_tail(r@, tape@, limit),
{
    let len: usize = tape.len();
    let n: usize = if limit < len {
        limit
    } else {
        len
    };
    let mut out: Vec<TradeRecord> = Vec::new();
    let mut i: usize = 0;
    while i < n
        invariant
            i <= n <= len,
            len == tape@.len(),
            out@.len() == i,
            forall|j: int|
                0 <= j < i ==> same_record(#[trigger] out@[j], tape@[tape@.len() - n + j]),
        decreases n - i,
    {
        out.push(tape[len - n + i].clone());
        i += 1;
    }
    out
}

/// How many records a tape has.
fn record_count(tape: &VecDeque<TradeRecord>) -> (r: usize)
    ensures
        r == tape@.len(),
{
    tape.len()
}

/// The index of the first record with a trade id, or the length.
pub open spec fn first_with(tape: Seq<TradeRecord>, id: Seq<u8>) -> nat
    decreases tape.len(),
{
    if tape.len() == 0 || wire::content(tape[0].trade_id) == id {
        0
    } else {
        1 + first_with(tape.drop_first(), id)
    }
}

proof fn lemma_first_with(tape: Seq<TradeRecord>, id: Seq<u8>, i: int)
    requires
        0 <= i <= tape.len(),
        forall|j: int| 0 <= j < i ==> wire::content((#[trigger] tape[j]).trade_id) != id,
        i < tape.len() ==> wire::content(tape[i].trade_id) == id,
    ensures
        first_with(tape, id) == i,
    decreases i,
{
    if i > 0 {
        assert(wire::content(tape[0].trade_id) != id);
        let rest = tape.drop_first();
        assert forall|j: int| 0 <= j < i - 1 implies wire::content((#[trigger] rest[j]).trade_id)
            != id by {
            assert(rest[j] == tape[j + 1]);
        }
        lemma_first_with(rest, id, i - 1);
    }
}

/// A ticker's tape: an empty one where there is none yet.
pub open spec fn tape_of(m: Map<Seq<u8>, Seq<TradeRecord>>, ticker: Seq<u8>) -> Seq<TradeRecord> {
    if m.contains_key(ticker) {
        m[ticker]
    } else {
        Seq::empty()
    }
}

/// A tape after one more trade: the oldest leaves when the tape is full.
pub open spec fn extended(
    tape: Seq<TradeRecord>,
    cap: nat,
    record: TradeRecord,
) -> Seq<TradeRecord> {
    if tape.len() == cap {
        tape.drop_first().push(record)
    } else {
        tape.push(record)
    }
}

/// The most recent trades of each ticker.
#[derive(Debug)]
pub struct TradeBuffer {
    per_ticker_capacity: usize,
    inner: DashMap<Bytes, VecDeque<TradeRecord>, RandomState>,
}

impl View for TradeBuffer {
    type V = Map<Seq<u8>, Seq<TradeRecord>>;

    closed spec fn view(&self) -> Map<Seq<u8>, Seq<TradeRecord>> {
        tapes(self.inner).map_values(|v: VecDeque<TradeRecord>| v@)
    }
}

impl TradeBuffer {
    /// How many trades a tape may hold.
    pub closed spec fn cap(&self) -> nat {
        self.per_ticker_capacity as nat
    }

    /// No tape is longer than the limit, which is at least one.
    pub open spec fn wf(&self) -> bool {
        &&& 1 <= self.cap()
        &&& forall|t: Seq<u8>| #[trigger]
            self@.contains_key(t) ==> self@[t].len() <= self.cap()
    }

    /// A buffer without tapes, each to hold up to `per_ticker_capacity` trades,
    /// and one at least.
    pub fn new(per_ticker_capacity: usize) -> (r: Self)
        ensures
            r.wf(),
            r@ == Map::<Seq<u8>, Seq<TradeRecord>>::empty(),
            r.cap() == if per_ticker_capacity == 0 {
                1
            } else {
                per_ticker_capacity as nat
            },
    {
        let r = TradeBuffer {
            per_ticker_capacity: if per_ticker_capacity == 0 {
                1
            } else {
                per_ticker_capacity
            },
            inner: new_tapes(),
        };
        assert(r@ =~= Map::<Seq<u8>, Seq<TradeRecord>>::empty());
        r
    }

    /// Puts a trade on a ticker's tape. The oldest leaves when the tape is
    /// full.
    pub fn push(&mut self, ticker: Bytes, trade: TradeRecord)
        requires
            old(self).wf(),
        ensures
            final(self).wf(),
            final(self).cap() == old(self).cap(),
            final(self)@ == old(self)@.insert(
                wire::content(ticker),
                extended(tape_of(old(self)@, wire::content(ticker)), old(self).cap(), trade),
            ),
    {
        let ghost t = wire::content(ticker);
        let mut tape: VecDeque<TradeRecord> = match take_tape(
            &mut self.inner,
            wire::as_slice(&ticker),
        ) {
            Some((_, tape)) => tape,
            None => VecDeque::new(),
        };
        assert(tape@ == tape_of(old(self)@, t));
        if tape.len() == self.per_ticker_capacity {
            let _oldest = tape.pop_front();
            assert(tape@ =~= tape_of(old(self)@, t).drop_first());
        }
        tape.push_back(trade);
        put_tape(&mut self.inner, ticker, tape);
        proof {
            let new = extended(tape_of(old(self)@, t), old(self).cap(), trade);
            assert(tape@ =~= new);
            assert(self@ =~= old(self)@.insert(t, new));
            assert forall|x: Seq<u8>| #[trigger] self@.contains_key(x) implies self@[x].len()
                <= self.cap() by {
                if x != t {
                    assert(old(self)@.contains_key(x));
                } else if old(self)@.contains_key(t) {
                    assert(old(self)@[t].len() <= old(self).cap());
                }
            }
        }
    }

    /// Takes the first trade with an id off a ticker's tape. Returns whether
    /// there was one.
    pub fn remove(&mut self, ticker: &[u8], trade_id: &[u8]) -> (r: bool)
        requires
            old(self).wf(),
        ensures
            final(self).wf(),
            final(self).cap() == old(self).cap(),
            r == (first_with(tape_of(old(self)@, ticker@), trade_id@) < tape_of(
                old(self)@,
                ticker@,
            ).len()),
            final(self)@ == if r {
                old(self)@.insert(
                    ticker@,
                    old(self)@[ticker@].remove(
                        first_with(old(self)@[ticker@], trade_id@) as int,
                    ),
                )
            } else {
                old(self)@
            },
    {
        let ghost before = self@;
        match take_tape(&mut self.inner, ticker) {
            Some((key, mut tape)) => {
                let ghost whole = tape@;
                assert(before.contains_key(ticker@) && whole == before[ticker@]);
                let mut i: usize = 0;
                while i < tape.len() && !text::same_bytes(
                    wire::as_slice(&tape[i].trade_id),
                    trade_id,
                )
                    invariant
                        i <= tape@.len(),
                        tape@ == whole,
                        forall|j: int|
                            0 <= j < i ==> wire::content((#[trigger] whole[j]).trade_id)
                                != trade_id@,
                    decreases tape@.len() - i,
                {
                    i += 1;
                }
                proof {
                    lemma_first_with(whole, trade_id@, i as int);
                }
                let found: bool = i < tape.len();
                if found {
                    let _gone = tape.remove(i);
                    assert(tape@ =~= whole.remove(i as int));
                }
                put_tape(&mut self.inner, key, tape);
                assert(self@ =~= if found {
                    before.insert(ticker@, whole.remove(i as int))
                } else {
                    before
                });
                assert forall|x: Seq<u8>| #[trigger] self@.contains_key(x) implies self@[x].len()
                    <= self.cap() by {
                    assert(before.contains_key(x));
                }
                found
            },
            None => {
                assert(self@ =~= before);
                false
            },
        }
    }

    /// Empties a ticker's tape. A ticker without one gets none.
    pub fn clear(&mut self, ticker: &[u8])
        requires
            old(self).wf(),
        ensures
            final(self).wf(),
            final(self).cap() == old(self).cap(),
            final(self)@ == if old(self)@.contains_key(ticker@) {
                old(self)@.insert(ticker@, Seq::empty())
            } else {
                old(self)@
            },
    {
        let ghost before = self@;
        match take_tape(&mut self.inner, ticker) {
            Some((key, mut tape)) => {
                assert(before.contains_key(ticker@));
                tape.clear();
                put_tape(&mut self.inner, key, tape);
                assert(self@ =~= before.insert(ticker@, Seq::empty()));
            },
            None => {
                assert(self@ =~= before);
            },
        }
    }

    /// The last `limit` trades of a ticker, oldest first.
    pub fn snapshot(&self, ticker: &[u8], limit: usize) -> (r: Vec<TradeRecord>)
        ensures
            is_tail(r@, tape_of(self@, ticker@), limit),
    {
        match read_tape(&self.inner, ticker, limit) {
            Some(v) => v,
            None => Vec::new(),
        }
    }

    /// How many trades a ticker's tape holds.
    pub fn len_for(&self, ticker: &[u8]) -> (r: usize)
        ensures
            r == tape_of(self@, ticker@).len(),
    {
        match tape_len(&self.inner, ticker) {
            Some(n) => n,
            None => 0,
        }
    }

    /// How many tickers have a tape.
    pub fn known_tickers(&self) -> (r: usize)
        ensures
            r == self@.len(),
    {
        assert(self@.dom() =~= tapes(self.inner).dom());
        count_tapes(&self.inner)
    }
}

/// A tape holds its most recent trades: pushing keeps a suffix of all trades
/// ever pushed, as long as the limit allows, with the new one last.
pub proof fn law_tape_is_a_suffix(
    all: Seq<TradeRecord>,
    tape: Seq<TradeRecord>,
    cap: nat,
    record: TradeRecord,
)
    requires
        cap >= 1,
        tape.len() == if all.len() < cap {
            all.len()
        } else {
            cap
        },
        tape == all.skip(all.len() - tape.len()),
    ensures
        extended(tape, cap, record).len() == if all.push(record).len() < cap {
            all.push(record).len()
        } else {
            cap
        },
        extended(tape, cap, record) == all.push(record).skip(
            all.push(record).len() - extended(tape, cap, record).len(),
        ),
{
    let next = extended(tape, cap, record);
    assert(next =~= all.push(record).skip(all.push(record).len() - next.len()));
}

/// Trades of one ticker leave the tapes of all others as they are.
pub proof fn law_tickers_are_isolated(
    m: Map<Seq<u8>, Seq<TradeRecord>>,
    ticker: Seq<u8>,
    other: Seq<u8>,
    tape: Seq<TradeRecord>,
)
    requires
        other != ticker,
    ensures
        tape_of(m.insert(ticker, tape), other) == tape_of(m, other),
{
}

/// A removed trade is gone: the id occurs once less, and the others keep their
/// order.
pub proof fn law_remove_takes_one(tape: Seq<TradeRecord>, id: Seq<u8>)
    requires
        first_with(tape, id) < tape.len(),
    ensures
        wire::content(tape[first_with(tape, id) as int].trade_id) == id,
        tape.remove(first_with(tape, id) as int) == tape.take(first_with(tape, id) as int)
            + tape.skip(first_with(tape, id) as int + 1),
    decreases tape.len(),
{
    let n = first_with(tape, id) as int;
    if wire::content(tape[0].trade_id) != id {
        law_remove_takes_one(tape.drop_first(), id);
    }
    assert(tape.remove(n) =~= tape.take(n) + tape.skip(n + 1));
}

/// A record repeats each field of its trade under the same name: the buyer is the
/// buyer and the seller the seller.
pub proof fn law_record_repeats_the_trade(r: TradeRecord, t: Trade)
    ensures
        records(r, t) <==> r.time_hhmmss == t.time_hhmmss && r.price@ == t.price@ && r.quantity
            == t.quantity && wire::content(r.trade_id) == wire::content(t.trade_id)
            && r.broker_buy_id == t.broker_buy_id && r.broker_sell_id == t.broker_sell_id
            && r.condition == t.condition && r.aggressor == t.aggressor,
{
}

/// Two trades whose buyers or sellers differ never share a record, and the
/// record of a trade tells its buyer from its seller.
pub proof fn law_records_tell_trades_apart(r: TradeRecord, t: Trade, u: Trade)
    requires
        records(r, t),
        records(r, u),
    ensures
        t.broker_buy_id == u.broker_buy_id,
        t.broker_sell_id == u.broker_sell_id,
        t.time_hhmmss == u.time_hhmmss,
        t.quantity == u.quantity,
        t.price@ == u.price@,
        wire::content(t.trade_id) == wire::content(u.trade_id),
        t.condition == u.condition,
        t.aggressor == u.aggressor,
        r.broker_buy_id == t.broker_buy_id,
        r.broker_sell_id == t.broker_sell_id,
{
}

/// A copy of a record agrees with it in each field.
pub proof fn law_copy_repeats_the_record(a: TradeRecord, b: TradeRecord)
    ensures
        same_record(a, b) <==> a.time_hhmmss == b.time_hhmmss && a.price@ == b.price@
            && a.quantity == b.quantity && wire::content(a.trade_id) == wire::content(b.trade_id)
            && a.broker_buy_id == b.broker_buy_id && a.broker_sell_id == b.broker_sell_id
            && a.condition == b.condition && a.aggressor == b.aggressor,
{
}

/// A snapshot holds the newest trades in the order of the tape: counted from the
/// end, both agree trade by trade, and nothing is left out that fits the limit.
pub proof fn law_snapshot_agrees_from_the_end(
    v: Seq<TradeRecord>,
    tape: Seq<TradeRecord>,
    limit: usize,
    back: int,
)
    requires
        is_tail(v, tape, limit),
        1 <= back,
    ensures
        v.len() <= limit,
        v.len() <= tape.len(),
        v.len() == limit || v.len() == tape.len(),
        back <= limit && back <= tape.len() ==> back <= v.len() && v[v.len()
            - back].time_hhmmss == tape[tape.len() - back].time_hhmmss && v[v.len() - back].price@
            == tape[tape.len() - back].price@ && v[v.len() - back].quantity == tape[tape.len()
            - back].quantity && wire::content(v[v.len() - back].trade_id) == wire::content(
            tape[tape.len() - back].trade_id,
        ) && v[v.len() - back].broker_buy_id == tape[tape.len() - back].broker_buy_id && v[v.len()
            - back].broker_sell_id == tape[tape.len() - back].broker_sell_id && v[v.len()
            - back].condition == tape[tape.len() - back].condition && v[v.len() - back].aggressor
            == tape[tape.len() - back].aggressor,
{
    if back <= limit && back <= tape.len() {
        assert(same_record(v[v.len() - back], tape[tape.len() - v.len() + (v.len() - back)]));
    }
}

/// A new trade stands last. On a tape with room the others stay where they are;
/// on a full one the oldest is gone and the others are one further to the front.
pub proof fn law_new_trade_stands_last(tape: Seq<TradeRecord>, cap: nat, record: TradeRecord, i: int)
    requires
        1 <= cap,
        tape.len() <= cap,
        0 <= i < extended(tape, cap, record).len(),
    ensures
        extended(tape, cap, record).last() == record,
        tape.len() < cap ==> extended(tape, cap, record).len() == tape.len() + 1,
        tape.len() == cap ==> extended(tape, cap, record).len() == cap,
        tape.len() < cap && i < tape.len() ==> extended(tape, cap, record)[i] == tape[i],
        tape.len() == cap && i < cap - 1 ==> extended(tape, cap, record)[i] == tape[i + 1],
{
}

/// The trade that a removal finds is the first with the id; there is one unless
/// no trade of the tape has the id.
pub proof fn law_removal_finds_the_first(tape: Seq<TradeRecord>, id: Seq<u8>, i: int)
    requires
        0 <= i < tape.len(),
    ensures
        first_with(tape, id) <= tape.len(),
        i < first_with(tape, id) ==> wire::content(tape[i].trade_id) != id,
        i == first_with(tape, id) ==> wire::content(tape[i].trade_id) == id,
        wire::content(tape[i].trade_id) == id ==> first_with(tape, id) <= i,
    decreases tape.len(),
{
    if wire::content(tape[0].trade_id) != id {
        let rest = tape.drop_first();
        if i > 0 {
            assert(rest[i - 1] == tape[i]);
            law_removal_finds_the_first(rest, id, i - 1);
        } else if rest.len() > 0 {
            law_removal_finds_the_first(rest, id, 0);
        }
    }
}

/// A ticker without a tape shows none.
pub proof fn law_tape_of_a_ticker(m: Map<Seq<u8>, Seq<TradeRecord>>, ticker: Seq<u8>)
    ensures
        !m.contains_key(ticker) ==> tape_of(m, ticker).len() == 0,
        m.contains_key(ticker) ==> tape_of(m, ticker) == m[ticker],
{
}

/// A pushed trade is the last on the tape of its ticker, and every other tape
/// stays as it is.
pub proof fn law_push_extends_one_tape(ticker: Bytes, record: TradeRecord, other: Seq<u8>)
    requires
        other != wire::content(ticker),
    ensures
        forall|buffer: &mut TradeBuffer| #[trigger]
            call_ensures(TradeBuffer::push, (buffer, ticker, record), ()) ==> {
                &&& final(buffer)@.contains_key(wire::content(ticker))
                &&& final(buffer)@[wire::content(ticker)].last() == record
                &&& final(buffer)@.contains_key(other) == (*buffer)@.contains_key(other)
                &&& (*buffer)@.contains_key(other) ==> final(buffer)@[other] == (*buffer)@[other]
                &&& !(*buffer)@.contains_key(wire::content(ticker)) && (*buffer).cap() > 0
                    ==> final(buffer)@[wire::content(ticker)] == seq![record]
            },
{
    assert forall|buffer: &mut TradeBuffer| #[trigger]
        call_ensures(TradeBuffer::push, (buffer, ticker, record), ()) implies {
        &&& final(buffer)@.contains_key(wire::content(ticker))
        &&& final(buffer)@[wire::content(ticker)].last() == record
        &&& final(buffer)@.contains_key(other) == (*buffer)@.contains_key(other)
        &&& (*buffer)@.contains_key(other) ==> final(buffer)@[other] == (*buffer)@[other]
        &&& !(*buffer)@.contains_key(wire::content(ticker)) && (*buffer).cap() > 0
            ==> final(buffer)@[wire::content(ticker)] == seq![record]
    } by {
        if !(*buffer)@.contains_key(wire::content(ticker)) && (*buffer).cap() > 0 {
            assert(final(buffer)@[wire::content(ticker)] =~= seq![record]);
        }
    }
}

/// A snapshot has the newest trades of its ticker, and the length is that of the
/// tape.
pub proof fn law_snapshot_shows_the_tape(
    buffer: TradeBuffer,
    ticker: &[u8],
    limit: usize,
    v: Vec<TradeRecord>,
    len: usize,
)
    requires
        call_ensures(TradeBuffer::snapshot, (&buffer, ticker, limit), v),
        call_ensures(TradeBuffer::len_for, (&buffer, ticker), len),
    ensures
        !buffer@.contains_key(ticker@) ==> len == 0 && v@.len() == 0,
        buffer@.contains_key(ticker@) ==> len == buffer@[ticker@].len(),
        v@.len() == limit || v@.len() == len,
        v@.len() <= limit && v@.len() <= len,
        v@.len() > 0 ==> v@.last().broker_buy_id == buffer@[ticker@].last().broker_buy_id
            && v@.last().broker_sell_id == buffer@[ticker@].last().broker_sell_id
            && v@.last().time_hhmmss == buffer@[ticker@].last().time_hhmmss && wire::content(
            v@.last().trade_id,
        ) == wire::content(buffer@[ticker@].last().trade_id),
{
    law_snapshot_agrees_from_the_end(v@, tape_of(buffer@, ticker@), limit, 1);
}

/// The conversion of a trade keeps each field under its name, called by either
/// name.
pub proof fn law_conversion_keeps_buyer_and_seller(t: Trade, r: TradeRecord)
    requires
        call_ensures(TradeRecord::of, (&t,), r),
    ensures
        r.broker_buy_id == t.broker_buy_id,
        r.broker_sell_id == t.broker_sell_id,
        r.time_hhmmss == t.time_hhmmss,
        r.price@ == t.price@,
        r.quantity == t.quantity,
        wire::content(r.trade_id) == wire::content(t.trade_id),
        r.condition == t.condition,
        r.aggressor == t.aggressor,
{
}

/// A new buffer holds as many trades of each ticker as asked for, and one for
/// zero.
pub proof fn law_new_buffer_is_empty(per_ticker_capacity: usize, b: TradeBuffer)
    requires
        call_ensures(TradeBuffer::new, (per_ticker_capacity,), b),
    ensures
        per_ticker_capacity > 0 ==> b.cap() == per_ticker_capacity,
        per_ticker_capacity == 0 ==> b.cap() == 1,
        forall|t: Seq<u8>| !(#[trigger] b@.contains_key(t)),
{
}

/// Removing takes the first trade with the id off the tape of its ticker and
/// tells whether there was one; clearing leaves an empty tape.
pub proof fn law_remove_and_clear(ticker: &[u8], trade_id: &[u8], other: Seq<u8>)
    requires
        other != ticker@,
    ensures
        forall|b: &mut TradeBuffer, r: bool| #[trigger]
            call_ensures(TradeBuffer::remove, (b, ticker, trade_id), r) ==> {
                &&& r <==> (*b)@.contains_key(ticker@) && first_with((*b)@[ticker@], trade_id@)
                    < (*b)@[ticker@].len()
                &&& r ==> final(b)@[ticker@] == (*b)@[ticker@].remove(
                    first_with((*b)@[ticker@], trade_id@) as int,
                )
                &&& !r ==> final(b)@ == (*b)@
                &&& (*b)@.contains_key(other) ==> final(b)@[other] == (*b)@[other]
            },
        forall|b: &mut TradeBuffer| #[trigger]
            call_ensures(TradeBuffer::clear, (b, ticker), ()) ==> {
                &&& (*b)@.contains_key(ticker@) ==> final(b)@[ticker@].len() == 0
                &&& !(*b)@.contains_key(ticker@) ==> final(b)@ == (*b)@
                &&& (*b)@.contains_key(other) ==> final(b)@[other] == (*b)@[other]
            },
{
}

} // verus!
