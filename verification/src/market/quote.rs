//! The latest quote of each ticker.
//!
//! A quote is a sparse map from the feed's index numbers to typed values. A
//! frame brings all of them or only what changed; either way the newer value of
//! an index replaces the older.
use crate::protocol::types::{QuoteDiff, QuoteFieldId, QuoteFieldValue};
use crate::wire;
use ahash::{AHashMap, RandomState};
use bytes::Bytes;
use dashmap::DashMap;
use vstd::prelude::*;

verus! {

/// The value of each quote index in a table.
pub uninterp spec fn values(m: AHashMap<u16, QuoteFieldValue>) -> Map<u16, QuoteFieldValue>;

/// The state of each ticker in a table.
pub uninterp spec fn states(m: DashMap<Bytes, QuoteState, RandomState>) -> Map<
    Seq<u8>,
    QuoteState,
>;

/// No values.
pub open spec fn no_values() -> Map<u16, QuoteFieldValue> {
    Map::empty()
}

/// No states.
pub open spec fn no_states() -> Map<Seq<u8>, QuoteState> {
    Map::empty()
}

/// `AHashMap::new`: an empty table.
#[verifier::external_body]
fn new_values() -> (m: AHashMap<u16, QuoteFieldValue>)
    ensures
        values(m) == no_values(),
{
    AHashMap::new()
}

/// `AHashMap::get`: the value of an index.
#[verifier::external_body]
fn find_value(m: &AHashMap<u16, QuoteFieldValue>, idx: u16) -> (r: Option<&QuoteFieldValue>)
    ensures
        match r {
            Some(v) => values(*m).contains_key(idx) && *v == values(*m)[idx],
            None => !values(*m).contains_key(idx),
        },
{
    m.get(&idx)
}

/// `AHashMap::insert`: the value of an index, whatever it was before.
#[verifier::external_body]
fn set_value(m: &mut AHashMap<u16, QuoteFieldValue>, idx: u16, value: QuoteFieldValue)
    ensures
        values(*final(m)) == values(*old(m)).insert(idx, value),
{
    m.insert(idx, value);
}

/// `AHashMap::keys`, collected: every index of the table once, in no set order.
#[verifier::external_body]
fn list_values(m: &AHashMap<u16, QuoteFieldValue>) -> (r: Vec<u16>)
    ensures
        r@.to_set() == values(*m).dom(),
        r@.no_duplicates(),
{
    m.keys().copied().collect()
}

/// `DashMap::with_hasher`: an empty table, hashed by `RandomState::default`.
#[verifier::external_body]
fn new_states() -> (m: DashMap<Bytes, QuoteState, RandomState>)
    ensures
        states(m) == no_states(),
{
    DashMap::with_hasher(RandomState::default())
}

/// `DashMap::remove`: takes a ticker's state out. The table is borrowed
/// mutably, so no one else sees it without.
#[verifier::external_body]
fn take_state(m: &mut DashMap<Bytes, QuoteState, RandomState>, ticker: &[u8]) -> (r: Option<
    QuoteState,
>)
    ensures
        match r {
            Some(s) => states(*old(m)).contains_key(ticker@) && s == states(*old(m))[ticker@],
            None => !states(*old(m)).contains_key(ticker@),
        },
        states(*final(m)) == states(*old(m)).remove(ticker@),
{
    m.remove(ticker).map(|(_, state)| state)
}

/// `DashMap::insert`: puts a ticker's state in.
#[verifier::external_body]
fn put_state(m: &mut DashMap<Bytes, QuoteState, RandomState>, ticker: Bytes, state: QuoteState)
    ensures
        states(*final(m)) == states(*old(m)).insert(wire::content(ticker), state),
{
    m.insert(ticker, state);
}

/// `DashMap::get`: hands a ticker's state, while its shard is locked, to `f`.
#[verifier::external_body]
fn read_state<R, F: FnOnce(Option<&QuoteState>) -> R>(
    m: &DashMap<Bytes, QuoteState, RandomState>,
    ticker: &[u8],
    f: F,
) -> (r: R)
    requires
        states(*m).contains_key(ticker@) ==> call_requires(f, (Some(&states(*m)[ticker@]),)),
        !states(*m).contains_key(ticker@) ==> call_requires(f, (None,)),
    ensures
        states(*m).contains_key(ticker@) ==> call_ensures(f, (Some(&states(*m)[ticker@]),), r),
        !states(*m).contains_key(ticker@) ==> call_ensures(f, (None,), r),
{
    match m.get(ticker) {
        Some(entry) => f(Some(entry.value())),
        None => f(None),
    }
}

/// `DashMap::len`: how many tickers have a state.
#[verifier::external_body]
fn count_states(m: &DashMap<Bytes, QuoteState, RandomState>) -> (r: usize)
    ensures
        r == states(*m).len(),
{
    m.len()
}

/// `DashMap::iter`, collected: ticker, version and time of every state once, in
/// no set order.
#[verifier::external_body]
fn list_states(m: &DashMap<Bytes, QuoteState, RandomState>) -> (r: Vec<(Bytes, u64, u32)>)
    ensures
        forall|i: int|
            0 <= i < r@.len() ==> states(*m).contains_key(wire::content((#[trigger] r@[i]).0))
                && r@[i].1 == states(*m)[wire::content(r@[i].0)].version && r@[i].2 == states(
                *m,
            )[wire::content(r@[i].0)].time_hhmmss,
        forall|t: Seq<u8>| #[trigger]
            states(*m).contains_key(t) ==> exists|i: int|
                0 <= i < r@.len() && wire::content((#[trigger] r@[i]).0) == t,
        forall|i: int, j: int|
            0 <= i < j < r@.len() ==> wire::content((#[trigger] r@[i]).0) != wire::content(
                (#[trigger] r@[j]).0,
            ),
{
    m.iter().map(|kv| (kv.key().clone(), kv.value().version, kv.value().time_hhmmss)).collect()
}

/// A quote as mathematics sees it.
pub struct QuoteModel {
    /// HHMMSS of the last frame; zero before the first.
    pub time_hhmmss: u32,
    /// How many frames were applied.
    pub version: u64,
    /// Value of each index.
    pub fields: Map<u16, QuoteFieldValue>,
}

/// The consolidated quote of one ticker.
#[derive(Debug)]
pub struct QuoteState {
    /// HHMMSS of the last frame; zero before the first.
    pub time_hhmmss: u32,
    /// How many frames were applied.
    pub version: u64,
    /// Latest value of each index.
    pub fields: AHashMap<u16, QuoteFieldValue>,
}

impl View for QuoteState {
    type V = QuoteModel;

    open spec fn view(&self) -> QuoteModel {
        QuoteModel {
            time_hhmmss: self.time_hhmmss,
            version: self.version,
            fields: values(self.fields),
        }
    }
}

/// A quote before its first frame.
pub open spec fn blank() -> QuoteModel {
    QuoteModel { time_hhmmss: 0, version: 0, fields: Map::empty() }
}

impl Default for QuoteState {
    fn default() -> (r: Self)
        ensures
            r@ == blank(),
    {
        QuoteState { time_hhmmss: 0, version: 0, fields: new_values() }
    }
}

/// Two values say the same.
pub open spec fn alike(a: QuoteFieldValue, b: QuoteFieldValue) -> bool {
    match (a, b) {
        (QuoteFieldValue::Float(x), QuoteFieldValue::Float(y)) => x@ == y@,
        (QuoteFieldValue::Str(x), QuoteFieldValue::Str(y)) => wire::content(x) == wire::content(y),
        _ => a == b,
    }
}

/// A value that says the same.
fn copy_value(v: &QuoteFieldValue) -> (r: QuoteFieldValue)
    ensures
        alike(*v, r),
{
    match v {
        QuoteFieldValue::Float(d) => QuoteFieldValue::Float(d.clone()),
        QuoteFieldValue::Int(n) => QuoteFieldValue::Int(*n),
        QuoteFieldValue::Time(n) => QuoteFieldValue::Time(*n),
        QuoteFieldValue::Date(n) => QuoteFieldValue::Date(*n),
        QuoteFieldValue::DateTime(n) => QuoteFieldValue::DateTime(*n),
        QuoteFieldValue::Char(c) => QuoteFieldValue::Char(*c),
        QuoteFieldValue::Phase(p) => QuoteFieldValue::Phase(*p),
        QuoteFieldValue::Str(b) => QuoteFieldValue::Str(b.clone()),
    }
}

impl Clone for QuoteState {
    fn clone(&self) -> (r: Self)
        ensures
            r.time_hhmmss == self.time_hhmmss,
            r.version == self.version,
            r@.fields.dom() == self@.fields.dom(),
            forall|idx: u16| #[trigger]
                self@.fields.contains_key(idx) ==> alike(self@.fields[idx], r@.fields[idx]),
    {
        let ids = list_values(&self.fields);
        let mut fields = new_values();
        let mut i: usize = 0;
        assert(values(fields).dom() =~= ids@.take(0).to_set());
        while i < ids.len()
            invariant
                i <= ids@.len(),
                ids@.to_set() == values(self.fields).dom(),
                values(fields).dom() == ids@.take(i as int).to_set(),
                forall|idx: u16| #[trigger]
                    values(fields).contains_key(idx) ==> alike(
                        values(self.fields)[idx],
                        values(fields)[idx],
                    ),
            decreases ids@.len() - i,
        {
            let id: u16 = ids[i];
            proof {
                let done = ids@.take(i as int);
                let next = ids@.take(i + 1);
                assert(next =~= done.push(id));
                assert(next.to_set() =~= done.to_set().insert(id)) by {
                    done.lemma_push_to_set_commute(id);
                }
                assert(ids@.to_set().contains(ids@[i as int]));
            }
            if let Some(v) = find_value(&self.fields, id) {
                set_value(&mut fields, id, copy_value(v));
            }
            i += 1;
        }
        assert(ids@.take(i as int) =~= ids@);
        QuoteState { time_hhmmss: self.time_hhmmss, version: self.version, fields }
    }
}

/// The values after a diff: later pairs win over earlier ones.
pub open spec fn merged(
    fields: Map<u16, QuoteFieldValue>,
    diff: Seq<(QuoteFieldId, QuoteFieldValue)>,
) -> Map<u16, QuoteFieldValue>
    decreases diff.len(),
{
    if diff.len() == 0 {
        fields
    } else {
        merged(fields, diff.drop_last()).insert(diff.last().0.0, diff.last().1)
    }
}

/// The quote after a frame.
pub open spec fn updated(
    q: QuoteModel,
    time_hhmmss: u32,
    diff: Seq<(QuoteFieldId, QuoteFieldValue)>,
) -> QuoteModel {
    QuoteModel {
        time_hhmmss,
        version: if q.version == u64::MAX {
            0
        } else {
            (q.version + 1) as u64
        },
        fields: merged(q.fields, diff),
    }
}

impl QuoteState {
    /// Applies a diff, be it a full snapshot or a delta. Returns how many
    /// pairs it had.
    pub fn apply_diff(&mut self, time_hhmmss: u32, diff: QuoteDiff) -> (r: usize)
        ensures
            final(self)@ == updated(old(self)@, time_hhmmss, diff@),
            r == diff@.len(),
    {
        let ghost start = values(self.fields);
        let ghost pairs = diff@;
        self.time_hhmmss = time_hhmmss;
        self.version = self.version.wrapping_add(1);
        let n: usize = diff.len();
        assert(pairs.take(0) =~= Seq::empty());
        for pair in it: diff
            invariant
                it.seq() == pairs,
                values(self.fields) == merged(start, pairs.take(it.index())),
                self.time_hhmmss == time_hhmmss,
                self.version == updated(old(self)@, time_hhmmss, pairs).version,
        {
            let ghost k = it.index();
            assert(pairs.take(k + 1).drop_last() =~= pairs.take(k));
            let (QuoteFieldId(idx), value) = pair;
            set_value(&mut self.fields, idx, value);
        }
        assert(pairs.take(pairs.len() as int) =~= pairs);
        n
    }

    /// The value of an index.
    pub fn get(&self, idx: u16) -> (r: Option<&QuoteFieldValue>)
        ensures
            match r {
                Some(v) => self@.fields.contains_key(idx) && *v == self@.fields[idx],
                None => !self@.fields.contains_key(idx),
            },
    {
        find_value(&self.fields, idx)
    }
}

/// The quotes of all tickers.
#[derive(Debug)]
pub struct QuoteEngine {
    states: DashMap<Bytes, QuoteState, RandomState>,
}

impl View for QuoteEngine {
    type V = Map<Seq<u8>, QuoteModel>;

    closed spec fn view(&self) -> Map<Seq<u8>, QuoteModel> {
        states(self.states).map_values(|s: QuoteState| s@)
    }
}

/// A ticker's quote: a blank one where there is none yet.
pub open spec fn quote_of(m: Map<Seq<u8>, QuoteModel>, ticker: Seq<u8>) -> QuoteModel {
    if m.contains_key(ticker) {
        m[ticker]
    } else {
        blank()
    }
}

/// What [`QuoteEngine::with_state`] may hand out.
pub open spec fn shows(
    m: Map<Seq<u8>, QuoteModel>,
    ticker: Seq<u8>,
    s: Option<&QuoteState>,
) -> bool {
    match s {
        Some(state) => m.contains_key(ticker) && state@ == m[ticker],
        None => !m.contains_key(ticker),
    }
}

impl QuoteEngine {
    /// An engine without quotes.
    pub fn new() -> (r: Self)
        ensures
            r@ == Map::<Seq<u8>, QuoteModel>::empty(),
    {
        let r = QuoteEngine { states: new_states() };
        assert(r@ =~= Map::<Seq<u8>, QuoteModel>::empty());
        r
    }

    /// Applies a diff to a ticker's quote, which is created if need be.
    /// Returns how many pairs it had.
    pub fn apply(&mut self, ticker: Bytes, time_hhmmss: u32, diff: QuoteDiff) -> (r: usize)
        ensures
            final(self)@ == old(self)@.insert(
                wire::content(ticker),
                updated(quote_of(old(self)@, wire::content(ticker)), time_hhmmss, diff@),
            ),
            r == diff@.len(),
    {
        let taken = take_state(&mut self.states, wire::as_slice(&ticker));
        let mut state: QuoteState = match taken {
            Some(s) => s,
            None => QuoteState::default(),
        };
        let n = state.apply_diff(time_hhmmss, diff);
        put_state(&mut self.states, ticker, state);
        assert(self@ =~= old(self)@.insert(
            wire::content(ticker),
            updated(quote_of(old(self)@, wire::content(ticker)), time_hhmmss, diff@),
        ));
        n
    }

    /// Hands a ticker's quote, if there is one, to `f`.
    pub fn with_state<R, F: FnOnce(Option<&QuoteState>) -> R>(&self, ticker: &[u8], f: F) -> (r: R)
        requires
            forall|s: Option<&QuoteState>|
                shows(self@, ticker@, s) ==> #[trigger] call_requires(f, (s,)),
        ensures
            exists|s: Option<&QuoteState>|
                shows(self@, ticker@, s) && #[trigger] call_ensures(f, (s,), r),
    {
        proof {
            if self@.contains_key(ticker@) {
                assert(shows(self@, ticker@, Some(&states(self.states)[ticker@])));
            } else {
                assert(shows(self@, ticker@, None));
            }
        }
        read_state(&self.states, ticker, f)
    }

    /// Ticker, version and time of every quote, each once, in no set order.
    pub fn known_tickers(&self) -> (r: Vec<(Bytes, u64, u32)>)
        ensures
            forall|i: int|
                0 <= i < r@.len() ==> self@.contains_key(wire::content((#[trigger] r@[i]).0))
                    && r@[i].1 == self@[wire::content(r@[i].0)].version && r@[i].2
                    == self@[wire::content(r@[i].0)].time_hhmmss,
            forall|t: Seq<u8>| #[trigger]
                self@.contains_key(t) ==> exists|i: int|
                    0 <= i < r@.len() && wire::content((#[trigger] r@[i]).0) == t,
            forall|i: int, j: int|
                0 <= i < j < r@.len() ==> wire::content((#[trigger] r@[i]).0) != wire::content(
                    (#[trigger] r@[j]).0,
                ),
    {
        let r = list_states(&self.states);
        assert forall|t: Seq<u8>| #[trigger] self@.contains_key(t) implies exists|i: int|
            0 <= i < r@.len() && wire::content((#[trigger] r@[i]).0) == t by {
            assert(states(self.states).contains_key(t));
        }
        r
    }

    /// How many tickers have a quote.
    pub fn len(&self) -> (r: usize)
        ensures
            r == self@.len(),
    {
        assert(self@.dom() =~= states(self.states).dom());
        count_states(&self.states)
    }

    /// No ticker has a quote.
    pub fn is_empty(&self) -> (r: bool)
        ensures
            r == (self@.len() == 0),
    {
        self.len() == 0
    }
}

impl Default for QuoteEngine {
    fn default() -> (r: Self)
        ensures
            r@ == Map::<Seq<u8>, QuoteModel>::empty(),
    {
        QuoteEngine::new()
    }
}

/// How a feed is cut into frames does not matter: two diffs one after the other
/// do what their pairs in one would do.
pub proof fn law_diffs_compose(
    fields: Map<u16, QuoteFieldValue>,
    a: Seq<(QuoteFieldId, QuoteFieldValue)>,
    b: Seq<(QuoteFieldId, QuoteFieldValue)>,
)
    ensures
        merged(merged(fields, a), b) == merged(fields, a + b),
    decreases b.len(),
{
    if b.len() == 0 {
        assert(a + b =~= a);
    } else {
        law_diffs_compose(fields, a, b.drop_last());
        assert((a + b).drop_last() =~= a + b.drop_last());
    }
}

/// A diff changes only the indices it names: of every other the value stays.
pub proof fn law_unnamed_fields_stay(
    fields: Map<u16, QuoteFieldValue>,
    diff: Seq<(QuoteFieldId, QuoteFieldValue)>,
    idx: u16,
)
    requires
        forall|i: int| 0 <= i < diff.len() ==> (#[trigger] diff[i]).0.0 != idx,
    ensures
        merged(fields, diff).contains_key(idx) == fields.contains_key(idx),
        fields.contains_key(idx) ==> merged(fields, diff)[idx] == fields[idx],
    decreases diff.len(),
{
    if diff.len() > 0 {
        assert(diff.last().0.0 != idx);
        assert forall|i: int| 0 <= i < diff.drop_last().len() implies (
        #[trigger] diff.drop_last()[i]).0.0 != idx by {
            assert(diff[i].0.0 != idx);
        }
        law_unnamed_fields_stay(fields, diff.drop_last(), idx);
    }
}

/// The most recent value wins: after a diff an index has the value of the last
/// pair that names it.
pub proof fn law_last_value_wins(
    fields: Map<u16, QuoteFieldValue>,
    diff: Seq<(QuoteFieldId, QuoteFieldValue)>,
    k: int,
)
    requires
        0 <= k < diff.len(),
        forall|i: int| k < i < diff.len() ==> (#[trigger] diff[i]).0.0 != diff[k].0.0,
    ensures
        merged(fields, diff).contains_key(diff[k].0.0),
        merged(fields, diff)[diff[k].0.0] == diff[k].1,
    decreases diff.len(),
{
    if k < diff.len() - 1 {
        assert(diff.last().0.0 != diff[k].0.0);
        assert forall|i: int| k < i < diff.drop_last().len() implies (
        #[trigger] diff.drop_last()[i]).0.0 != diff.drop_last()[k].0.0 by {
            assert(diff[i].0.0 != diff[k].0.0);
        }
        law_last_value_wins(fields, diff.drop_last(), k);
    }
}

/// Frames of one ticker leave the quotes of all others as they are.
pub proof fn law_tickers_are_isolated(
    m: Map<Seq<u8>, QuoteModel>,
    ticker: Seq<u8>,
    other: Seq<u8>,
    time_hhmmss: u32,
    diff: Seq<(QuoteFieldId, QuoteFieldValue)>,
)
    requires
        other != ticker,
    ensures
        quote_of(m.insert(ticker, updated(quote_of(m, ticker), time_hhmmss, diff)), other)
            == quote_of(m, other),
{
}

/// A frame sets the time, counts one up (and starts anew behind the last count),
/// and changes the values by its pairs.
pub proof fn law_frame_sets_time_and_counts(
    q: QuoteModel,
    time_hhmmss: u32,
    diff: Seq<(QuoteFieldId, QuoteFieldValue)>,
)
    ensures
        updated(q, time_hhmmss, diff).time_hhmmss == time_hhmmss,
        q.version < u64::MAX ==> updated(q, time_hhmmss, diff).version == q.version + 1,
        q.version == u64::MAX ==> updated(q, time_hhmmss, diff).version == 0,
        diff.len() == 0 ==> updated(q, time_hhmmss, diff).fields == q.fields,
        diff.len() == 1 ==> updated(q, time_hhmmss, diff).fields == q.fields.insert(
            diff[0].0.0,
            diff[0].1,
        ),
{
    reveal_with_fuel(merged, 2);
}

/// A quote before its first frame holds nothing.
pub proof fn law_blank_quote_holds_nothing(
    m: Map<Seq<u8>, QuoteModel>,
    ticker: Seq<u8>,
    idx: u16,
)
    ensures
        blank().version == 0,
        blank().time_hhmmss == 0,
        !blank().fields.contains_key(idx),
        !m.contains_key(ticker) ==> quote_of(m, ticker).version == 0 && !quote_of(
            m,
            ticker,
        ).fields.contains_key(idx),
        m.contains_key(ticker) ==> quote_of(m, ticker) == m[ticker],
{
}

/// A copy of a value is of the same kind and says the same.
pub proof fn law_copy_says_the_same(a: QuoteFieldValue, b: QuoteFieldValue)
    requires
        alike(a, b),
    ensures
        a is Float ==> b is Float && a->Float_0@ == b->Float_0@,
        a is Str ==> b is Str && wire::content(a->Str_0) == wire::content(b->Str_0),
        !(a is Float || a is Str) ==> a == b,
{
}

/// A frame changes the quote of its ticker and no other, and tells how many pairs
/// it had.
pub proof fn law_apply_changes_one_quote(
    ticker: Bytes,
    time_hhmmss: u32,
    diff: QuoteDiff,
    other: Seq<u8>,
)
    requires
        other != wire::content(ticker),
    ensures
        forall|engine: &mut QuoteEngine, r: usize| #[trigger]
            call_ensures(QuoteEngine::apply, (engine, ticker, time_hhmmss, diff), r) ==> {
                &&& r == diff@.len()
                &&& final(engine)@.contains_key(wire::content(ticker))
                &&& final(engine)@[wire::content(ticker)].time_hhmmss == time_hhmmss
                &&& final(engine)@[wire::content(ticker)].fields == merged(
                    quote_of((*engine)@, wire::content(ticker)).fields,
                    diff@,
                )
                &&& final(engine)@.contains_key(other) == (*engine)@.contains_key(other)
                &&& (*engine)@.contains_key(other) ==> final(engine)@[other] == (*engine)@[other]
            },
{
}

/// Whoever looks at a ticker's quote sees the quote of that ticker, or none.
pub proof fn law_own_quote_is_shown(
    m: Map<Seq<u8>, QuoteModel>,
    ticker: Seq<u8>,
    s: Option<&QuoteState>,
)
    requires
        shows(m, ticker, s),
    ensures
        s is Some <==> m.contains_key(ticker),
        s matches Some(state) ==> state@ == m[ticker],
{
}

} // verus!
