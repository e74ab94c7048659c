//! The books of all tickers.
//!
//! Books are spread over shards: each ticker is routed to one shard, by its hash,
//! and its book is there or nowhere.
use crate::market::order_book;
use crate::market::order_book::{BookModel, OrderBook};
use crate::market::shard;
use crate::market::shard::shard_for;
use crate::protocol::types::BookOp;
use crate::tables;
use crate::wire;
use ahash::{AHashMap, AHashSet};
use bytes::Bytes;
use vstd::prelude::*;

verus! {

/// The book of each ticker in a shard.
pub uninterp spec fn books(m: AHashMap<Bytes, OrderBook>) -> Map<Seq<u8>, OrderBook>;

/// No books.
pub open spec fn no_books() -> Map<Seq<u8>, OrderBook> {
    Map::empty()
}

/// `AHashMap::new`: an empty shard.
#[verifier::external_body]
fn new_shard() -> (m: AHashMap<Bytes, OrderBook>)
    ensures
        books(m) == no_books(),
{
    AHashMap::new()
}

/// `AHashMap::get`: the book of a ticker.
#[verifier::external_body]
fn find<'a>(m: &'a AHashMap<Bytes, OrderBook>, ticker: &[u8]) -> (r: Option<&'a OrderBook>)
    ensures
        match r {
            Some(b) => books(*m).contains_key(ticker@) && *b == books(*m)[ticker@],
            None => !books(*m).contains_key(ticker@),
        },
{
    m.get(ticker)
}

/// `AHashMap::remove`: takes the book of a ticker out.
#[verifier::external_body]
fn take(m: &mut AHashMap<Bytes, OrderBook>, ticker: &[u8]) -> (r: Option<OrderBook>)
    ensures
        match r {
            Some(b) => books(*old(m)).contains_key(ticker@) && b == books(*old(m))[ticker@],
            None => !books(*old(m)).contains_key(ticker@),
        },
        books(*final(m)) == books(*old(m)).remove(ticker@),
{
    m.remove(ticker)
}

/// `AHashMap::insert`: puts the book of a ticker in.
#[verifier::external_body]
fn put(m: &mut AHashMap<Bytes, OrderBook>, ticker: Bytes, book: OrderBook)
    ensures
        books(*final(m)) == books(*old(m)).insert(wire::content(ticker), book),
{
    m.insert(ticker, book);
}

/// `AHashMap::len`: how many books the shard holds.
#[verifier::external_body]
fn count(m: &AHashMap<Bytes, OrderBook>) -> (r: usize)
    ensures
        r == books(*m).len(),
{
    m.len()
}

/// The books of all tickers, and which tickers may have one.
#[derive(Debug)]
pub struct BookEngine {
    shards: Vec<AHashMap<Bytes, OrderBook>>,
    allowed: Option<AHashSet<Bytes>>,
}

/// Shard `i` holds a book of the ticker.
spec fn holds(shards: Seq<AHashMap<Bytes, OrderBook>>, i: int, ticker: Seq<u8>) -> bool {
    0 <= i < shards.len() && books(shards[i]).contains_key(ticker)
}

/// The shard that a ticker is routed to.
spec fn home(shards: Seq<AHashMap<Bytes, OrderBook>>, ticker: Seq<u8>) -> int {
    shard::shard_under(shard::routing_state(), ticker, shards.len() as usize) as int
}

/// The tickers in the first `n` shards.
spec fn tickers(shards: Seq<AHashMap<Bytes, OrderBook>>, n: int) -> Set<Seq<u8>> {
    Set::new(|t: Seq<u8>| exists|i: int| i < n && holds(shards, i, t))
}

impl View for BookEngine {
    type V = Map<Seq<u8>, BookModel>;

    closed spec fn view(&self) -> Map<Seq<u8>, BookModel> {
        Map::new(
            |t: Seq<u8>| exists|i: int| holds(self.shards@, i, t),
            |t: Seq<u8>| books(self.shards@[home(self.shards@, t)])[t]@,
        )
    }
}

/// The operations that a closure over a ticker's book must be ready for.
pub open spec fn shows(m: Map<Seq<u8>, BookModel>, ticker: Seq<u8>, b: Option<&OrderBook>) -> bool {
    match b {
        Some(book) => m.contains_key(ticker) && book@ == m[ticker] && book.wf(),
        None => !m.contains_key(ticker),
    }
}

impl BookEngine {
    /// The tickers that may have a book; `None` for all.
    pub closed spec fn filter(&self) -> Option<Set<Seq<u8>>> {
        match self.allowed {
            Some(s) => Some(tables::members(s)),
            None => None,
        }
    }

    /// Every book is in the shard that its ticker is routed to, and in order.
    pub closed spec fn wf(&self) -> bool {
        &&& 0 < self.shards@.len() <= usize::MAX
        &&& forall|i: int, t: Seq<u8>|
            #![trigger holds(self.shards@, i, t)]
            holds(self.shards@, i, t) ==> i == home(self.shards@, t)
                && books(self.shards@[i])[t].wf()
        &&& forall|i: int|
            0 <= i < self.shards@.len() ==> books(#[trigger] self.shards@[i]).dom().finite()
    }

    /// An engine without books, of `n_shards` shards; eight for zero. Every
    /// ticker is allowed.
    pub fn new(n_shards: usize) -> (r: Self)
        ensures
            r.wf(),
            r@ == Map::<Seq<u8>, BookModel>::empty(),
            r.filter() is None,
            r.shard_count() == if n_shards == 0 {
                8
            } else {
                n_shards as nat
            },
    {
        let n: usize = if n_shards == 0 {
            8
        } else {
            n_shards
        };
        let mut shards: Vec<AHashMap<Bytes, OrderBook>> = Vec::new();
        let mut i: usize = 0;
        while i < n
            invariant
                i <= n,
                shards@.len() == i,
                forall|j: int| 0 <= j < shards@.len() ==> books(#[trigger] shards@[j]) == no_books(),
            decreases n - i,
        {
            shards.push(new_shard());
            i += 1;
        }
        let r = BookEngine { shards, allowed: None };
        assert(r@ =~= Map::<Seq<u8>, BookModel>::empty());
        r
    }

    /// How many shards the engine has.
    pub closed spec fn shard_count(&self) -> nat {
        self.shards@.len()
    }

    /// The tickers that have a book in shard `i`.
    pub closed spec fn tickers_of_shard(&self, i: int) -> Set<Seq<u8>> {
        Set::new(|t: Seq<u8>| holds(self.shards@, i, t))
    }

    /// Restricts the engine to some tickers; `None` allows all again. Books
    /// that are there stay.
    pub fn set_allowed(&mut self, allowed: Option<AHashSet<Bytes>>)
        requires
            old(self).wf(),
        ensures
            final(self).wf(),
            final(self)@ == old(self)@,
            final(self).shard_count() == old(self).shard_count(),
            final(self).filter() == match allowed {
                Some(s) => Some(tables::members(s)),
                None => None,
            },
    {
        self.allowed = allowed;
    }

    /// Whether the ticker may have a book.
    pub fn is_allowed(&self, ticker: &[u8]) -> (r: bool)
        ensures
            r == match self.filter() {
                Some(s) => s.contains(ticker@),
                None => true,
            },
    {
        match &self.allowed {
            Some(s) => tables::is_member(s, ticker),
            None => true,
        }
    }

    /// Applies an operation to a ticker's book, which is created if need be.
    /// Returns `true` when the book can be shown. A ticker that is not allowed
    /// gives `false` and changes nothing.
    pub fn apply(&mut self, ticker: &Bytes, op: BookOp) -> (r: bool)
        requires
            old(self).wf(),
        ensures
            final(self).wf(),
            final(self).filter() == old(self).filter(),
            final(self).shard_count() == old(self).shard_count(),
            final(self)@ == applied_to(old(self)@, old(self).filter(), wire::content(*ticker), op),
            r == (permits(old(self).filter(), wire::content(*ticker))
                && final(self)@[wire::content(*ticker)].initialised),
    {
        let name = wire::as_slice(ticker);
        if !self.is_allowed(name) {
            return false;
        }
        let ghost t = wire::content(*ticker);
        let ghost before = self.shards@;
        let at: usize = shard_for(name, self.shards.len());
        assert(at == home(before, t));
        let taken = take(&mut self.shards[at], name);
        let mut book: OrderBook = match taken {
            Some(b) => b,
            None => OrderBook::default(),
        };
        assert(book.wf() && book@ == book_of(old(self)@, t)) by {
            if holds(before, at as int, t) {
                assert(holds(before, home(before, t), t));
            }
        }
        let observable = book.apply(op);
        put(&mut self.shards[at], ticker.clone(), book);
        proof {
            let after = self.shards@;
            assert forall|i: int, x: Seq<u8>| holds(after, i, x) == (holds(before, i, x) || (i == at
                && x == t)) by {}
            assert(self.wf());
            assert forall|x: Seq<u8>| x != t && old(self)@.contains_key(x) implies self@[x] == old(
                self,
            )@[x] by {
                let i = home(before, x);
                assert(holds(before, i, x));
                assert(holds(after, i, x));
                assert(holds(after, home(after, x), x));
            }
            assert(holds(after, at as int, t));
            assert(holds(after, home(after, t), t));
            assert(self@ =~= old(self)@.insert(t, order_book::applied(book_of(old(self)@, t), op)));
        }
        observable
    }

    /// Hands a ticker's book, if there is one, to `f`.
    pub fn with_book<R, F: FnOnce(Option<&OrderBook>) -> R>(&self, ticker: &[u8], f: F) -> (r: R)
        requires
            self.wf(),
            forall|b: Option<&OrderBook>|
                shows(self@, ticker@, b) ==> #[trigger] call_requires(f, (b,)),
        ensures
            exists|b: Option<&OrderBook>|
                shows(self@, ticker@, b) && #[trigger] call_ensures(f, (b,), r),
    {
        let at: usize = shard_for(ticker, self.shards.len());
        assert(at == home(self.shards@, ticker@));
        let b: Option<&OrderBook> = find(&self.shards[at], ticker);
        assert(holds(self.shards@, at as int, ticker@) == self@.contains_key(ticker@));
        assert(shows(self@, ticker@, b));
        f(b)
    }

    /// How many tickers have a book.
    pub fn len(&self) -> (r: usize)
        requires
            self.wf(),
            self@.len() <= usize::MAX,
        ensures
            r == self@.len(),
    {
        let mut total: usize = 0;
        let mut i: usize = 0;
        proof {
            assert(tickers(self.shards@, 0) =~= Set::empty());
        }
        while i < self.shards.len()
            invariant
                self.wf(),
                self@.len() <= usize::MAX,
                i <= self.shards@.len(),
                total == tickers(self.shards@, i as int).len(),
                tickers(self.shards@, i as int).finite(),
            decreases self.shards@.len() - i,
        {
            proof {
                lemma_next_shard(*self, i as int);
                lemma_all_tickers(*self, i + 1);
            }
            total += count(&self.shards[i]);
            i += 1;
        }
        proof {
            lemma_all_tickers(*self, i as int);
            assert(tickers(self.shards@, i as int) =~= self@.dom());
        }
        total
    }

    /// No ticker has a book.
    pub fn is_empty(&self) -> (r: bool)
        requires
            self.wf(),
            self@.len() <= usize::MAX,
        ensures
            r == (self@.len() == 0),
    {
        self.len() == 0
    }
}

/// The filter lets the ticker have a book.
pub open spec fn permits(filter: Option<Set<Seq<u8>>>, ticker: Seq<u8>) -> bool {
    match filter {
        Some(s) => s.contains(ticker),
        None => true,
    }
}

/// A ticker's book: a fresh one where there is none yet.
pub open spec fn book_of(m: Map<Seq<u8>, BookModel>, ticker: Seq<u8>) -> BookModel {
    if m.contains_key(ticker) {
        m[ticker]
    } else {
        order_book::fresh()
    }
}

/// The books after an operation on a ticker's.
pub open spec fn applied_to(
    m: Map<Seq<u8>, BookModel>,
    filter: Option<Set<Seq<u8>>>,
    ticker: Seq<u8>,
    op: BookOp,
) -> Map<Seq<u8>, BookModel> {
    if permits(filter, ticker) {
        m.insert(ticker, order_book::applied(book_of(m, ticker), op))
    } else {
        m
    }
}

proof fn lemma_next_shard(e: BookEngine, n: int)
    requires
        e.wf(),
        0 <= n < e.shards@.len(),
        tickers(e.shards@, n).finite(),
    ensures
        tickers(e.shards@, n + 1).finite(),
        tickers(e.shards@, n + 1).len() == tickers(e.shards@, n).len() + books(e.shards@[n]).len(),
{
    let a = tickers(e.shards@, n);
    let b = books(e.shards@[n]).dom();
    assert(tickers(e.shards@, n + 1) =~= a + b) by {
        assert forall|t: Seq<u8>| #[trigger]
            tickers(e.shards@, n + 1).contains(t) == (a.contains(t) || b.contains(t)) by {
            if tickers(e.shards@, n + 1).contains(t) {
                let i = choose|i: int| i < n + 1 && holds(e.shards@, i, t);
                assert(holds(e.shards@, i, t));
            }
            if b.contains(t) {
                assert(holds(e.shards@, n, t));
            }
        }
    }
    assert(a.disjoint(b)) by {
        assert forall|t: Seq<u8>| a.contains(t) implies !b.contains(t) by {
            let i = choose|i: int| i < n && holds(e.shards@, i, t);
            if b.contains(t) {
                assert(holds(e.shards@, n, t));
            }
        }
    }
    vstd::set_lib::lemma_set_disjoint_lens(a, b);
}

proof fn lemma_all_tickers(e: BookEngine, n: int)
    requires
        e.wf(),
        0 <= n <= e.shards@.len(),
    ensures
        tickers(e.shards@, n).finite(),
        tickers(e.shards@, e.shards@.len() as int) =~= e@.dom(),
        tickers(e.shards@, n).len() <= e@.len(),
    decreases e.shards@.len() - n,
{
    assert(tickers(e.shards@, e.shards@.len() as int) =~= e@.dom());
    lemma_tickers_finite(e, n);
    if n < e.shards@.len() {
        lemma_all_tickers(e, n + 1);
        lemma_next_shard(e, n);
    }
}

proof fn lemma_tickers_finite(e: BookEngine, n: int)
    requires
        e.wf(),
        0 <= n <= e.shards@.len(),
    ensures
        tickers(e.shards@, n).finite(),
    decreases n,
{
    if n == 0 {
        assert(tickers(e.shards@, 0) =~= Set::empty());
    } else {
        lemma_tickers_finite(e, n - 1);
        lemma_next_shard(e, n - 1);
    }
}

/// Every ticker is routed to one shard: its book is in that shard and in no other,
/// so that all its operations meet there.
pub proof fn law_tickers_are_routed(e: BookEngine, ticker: Seq<u8>, i: int)
    requires
        e.wf(),
    ensures
        0 < e.shard_count() <= usize::MAX,
        e.tickers_of_shard(i).contains(ticker) <==> e@.contains_key(ticker) && i
            == shard::shard_under(shard::routing_state(), ticker, e.shard_count() as usize),
{
    if e@.contains_key(ticker) {
        let j = choose|j: int| holds(e.shards@, j, ticker);
        assert(holds(e.shards@, j, ticker));
    }
    if e.tickers_of_shard(i).contains(ticker) {
        assert(holds(e.shards@, i, ticker));
    }
}

/// An operation on one ticker leaves the books of all others as they are.
pub proof fn law_tickers_are_isolated(
    m: Map<Seq<u8>, BookModel>,
    filter: Option<Set<Seq<u8>>>,
    ticker: Seq<u8>,
    other: Seq<u8>,
    op: BookOp,
)
    requires
        other != ticker,
    ensures
        applied_to(m, filter, ticker, op).contains_key(other) == m.contains_key(other),
        m.contains_key(other) ==> applied_to(m, filter, ticker, op)[other] == m[other],
{
}

/// A ticker that is not allowed never gets a book, and one that is has one
/// after its first operation.
pub proof fn law_filter_decides(
    m: Map<Seq<u8>, BookModel>,
    filter: Option<Set<Seq<u8>>>,
    ticker: Seq<u8>,
    op: BookOp,
)
    ensures
        !permits(filter, ticker) ==> applied_to(m, filter, ticker, op) == m,
        permits(filter, ticker) ==> applied_to(m, filter, ticker, op).contains_key(ticker),
{
}

/// An operation reaches the book of its ticker: what the book holds afterwards is
/// what the operation makes of what it held before, or of an empty book.
pub proof fn law_operation_reaches_the_book(
    m: Map<Seq<u8>, BookModel>,
    filter: Option<Set<Seq<u8>>>,
    ticker: Seq<u8>,
    op: BookOp,
)
    requires
        filter is None || filter->0.contains(ticker),
    ensures
        m.contains_key(ticker) ==> applied_to(m, filter, ticker, op)[ticker] == order_book::applied(
            m[ticker],
            op,
        ),
        !m.contains_key(ticker) ==> applied_to(m, filter, ticker, op)[ticker]
            == order_book::applied(
            BookModel {
                bids: Seq::empty(),
                asks: Seq::empty(),
                index: Map::empty(),
                initialised: false,
            },
            op,
        ),
        applied_to(m, filter, ticker, op).dom() == m.dom().insert(ticker),
{
    assert(applied_to(m, filter, ticker, op).dom() =~= m.dom().insert(ticker));
}

/// Without a filter every ticker may have a book, and with one those that it
/// names.
pub proof fn law_filter_names_the_allowed(s: Set<Seq<u8>>, ticker: Seq<u8>)
    ensures
        permits(None, ticker),
        permits(Some(s), ticker) <==> s.contains(ticker),
{
}

/// An operation on a ticker that is allowed changes its book, and no other; on
/// one that is not it changes nothing and tells so.
pub proof fn law_apply_changes_one_book(ticker: Bytes, op: BookOp, other: Seq<u8>)
    requires
        other != wire::content(ticker),
    ensures
        forall|engine: &mut BookEngine, r: bool| #[trigger]
            call_ensures(BookEngine::apply, (engine, &ticker, op), r) ==> {
                let t = wire::content(ticker);
                &&& final(engine)@.contains_key(other) == (*engine)@.contains_key(other)
                &&& (*engine)@.contains_key(other) ==> final(engine)@[other] == (*engine)@[other]
                &&& (*engine).filter() is Some && !(*engine).filter()->0.contains(t) ==> !r
                    && final(engine)@ == (*engine)@
                &&& (*engine).filter() is None ==> final(engine)@.contains_key(t) && r
                    == final(engine)@[t].initialised
                &&& (*engine).filter() is None && (*engine)@.contains_key(t)
                    ==> final(engine)@[t] == order_book::applied((*engine)@[t], op)
            },
{
}

/// A new engine has as many shards as asked for, and eight for zero.
pub proof fn law_new_engine_has_shards(n_shards: usize, e: BookEngine, ticker: &[u8], allowed: bool)
    requires
        call_ensures(BookEngine::new, (n_shards,), e),
        call_ensures(BookEngine::is_allowed, (&e, ticker), allowed),
    ensures
        n_shards > 0 ==> e.shard_count() == n_shards,
        n_shards == 0 ==> e.shard_count() == 8,
        forall|t: Seq<u8>| !(#[trigger] e@.contains_key(t)),
        allowed,
{
}

/// Whoever looks at a ticker's book sees the book of that ticker, or none.
pub proof fn law_own_book_is_shown(
    m: Map<Seq<u8>, BookModel>,
    ticker: Seq<u8>,
    b: Option<&OrderBook>,
)
    requires
        shows(m, ticker, b),
    ensures
        b is Some <==> m.contains_key(ticker),
        b matches Some(book) ==> book@ == m[ticker],
{
}

} // verus!
