//! What is subscribed, to subscribe again after a reconnect.
use vstd::hash_set::StringHashSet;
use vstd::prelude::*;

verus! {

/// What a subscription is for.
#[derive(Debug, Clone, Copy, PartialEq, Eq, Hash, Structural)]
pub enum SubscriptionKind {
    /// Quotes.
    Quote,
    /// Detailed book.
    BookDetailed,
    /// Aggregated book.
    BookAggregated,
    /// Trades.
    Trades,
}

/// The name of a subscription kind.
pub open spec fn kind_text(kind: SubscriptionKind) -> &'static str {
    match kind {
        SubscriptionKind::Quote => "quote",
        SubscriptionKind::BookDetailed => "book_detailed",
        SubscriptionKind::BookAggregated => "book_aggregated",
        SubscriptionKind::Trades => "trades",
    }
}

impl SubscriptionKind {
    /// The name of the kind.
    pub fn as_str(self) -> (r: &'static str)
        ensures
            r == kind_text(self),
    {
        match self {
            SubscriptionKind::Quote => "quote",
            SubscriptionKind::BookDetailed => "book_detailed",
            SubscriptionKind::BookAggregated => "book_aggregated",
            SubscriptionKind::Trades => "trades",
        }
    }
}

/// The subscriptions of a list, in its order.
pub open spec fn pairs(s: Seq<(SubscriptionKind, String)>) -> Seq<(SubscriptionKind, Seq<char>)> {
    s.map_values(|e: (SubscriptionKind, String)| (e.0, e.1@))
}

/// The active subscriptions: a set, without counts. Adding one that is there
/// does nothing.
pub struct SubscriptionRegistry {
    /// Every subscription once.
    entries: Vec<(SubscriptionKind, String)>,
    quotes: StringHashSet,
    books_detailed: StringHashSet,
    books_aggregated: StringHashSet,
    trades: StringHashSet,
}

impl View for SubscriptionRegistry {
    type V = Set<(SubscriptionKind, Seq<char>)>;

    closed spec fn view(&self) -> Set<(SubscriptionKind, Seq<char>)> {
        pairs(self.entries@).to_set()
    }
}

impl SubscriptionRegistry {
    /// The tickers of a kind.
    spec fn names(&self, kind: SubscriptionKind) -> Set<Seq<char>> {
        match kind {
            SubscriptionKind::Quote => self.quotes@,
            SubscriptionKind::BookDetailed => self.books_detailed@,
            SubscriptionKind::BookAggregated => self.books_aggregated@,
            SubscriptionKind::Trades => self.trades@,
        }
    }

    /// The list has no subscription twice, and the sets agree with it.
    pub closed spec fn wf(&self) -> bool {
        &&& pairs(self.entries@).no_duplicates()
        &&& forall|k: SubscriptionKind, t: Seq<char>|
            self@.contains((k, t)) <==> #[trigger] self.names(k).contains(t)
    }

    /// A registry without subscriptions.
    pub fn new() -> (r: Self)
        ensures
            r.wf(),
            r@ == Set::<(SubscriptionKind, Seq<char>)>::empty(),
    {
        let r = SubscriptionRegistry {
            entries: Vec::new(),
            quotes: StringHashSet::new(),
            books_detailed: StringHashSet::new(),
            books_aggregated: StringHashSet::new(),
            trades: StringHashSet::new(),
        };
        assert(r@ =~= Set::empty());
        r
    }

    /// Whether a subscription is active.
    fn has(&self, kind: SubscriptionKind, ticker: &str) -> (r: bool)
        requires
            self.wf(),
        ensures
            r == self@.contains((kind, ticker@)),
    {
        assert(self.names(kind).contains(ticker@) <==> self@.contains((kind, ticker@)));
        match kind {
            SubscriptionKind::Quote => self.quotes.contains(ticker),
            SubscriptionKind::BookDetailed => self.books_detailed.contains(ticker),
            SubscriptionKind::BookAggregated => self.books_aggregated.contains(ticker),
            SubscriptionKind::Trades => self.trades.contains(ticker),
        }
    }

    /// Adds a subscription. Returns whether it was new.
    pub fn add(&mut self, kind: SubscriptionKind, ticker: &str) -> (r: bool)
        requires
            old(self).wf(),
        ensures
            final(self).wf(),
            final(self)@ == old(self)@.insert((kind, ticker@)),
            r == !old(self)@.contains((kind, ticker@)),
    {
        if self.has(kind, ticker) {
            assert(self@ =~= self@.insert((kind, ticker@)));
            return false;
        }
        let ghost before = *self;
        let _new: bool = match kind {
            SubscriptionKind::Quote => self.quotes.insert(ticker.to_owned()),
            SubscriptionKind::BookDetailed => self.books_detailed.insert(ticker.to_owned()),
            SubscriptionKind::BookAggregated => self.books_aggregated.insert(ticker.to_owned()),
            SubscriptionKind::Trades => self.trades.insert(ticker.to_owned()),
        };
        self.entries.push((kind, ticker.to_owned()));
        proof {
            let p = pairs(before.entries@);
            assert(pairs(self.entries@) =~= p.push((kind, ticker@)));
            assert(self@ =~= before@.insert((kind, ticker@))) by {
                assert forall|x: (SubscriptionKind, Seq<char>)|
                    p.push((kind, ticker@)).contains(x) == (p.contains(x) || x == (kind, ticker@)) by {
                    let q = p.push((kind, ticker@));
                    if p.contains(x) {
                        let i = choose|i: int| 0 <= i < p.len() && p[i] == x;
                        assert(q[i] == x);
                    }
                    assert(q[p.len() as int] == (kind, ticker@));
                }
            }
            assert(!p.contains((kind, ticker@)));
            assert forall|k: SubscriptionKind, t: Seq<char>|
                self@.contains((k, t)) <==> #[trigger] self.names(k).contains(t) by {
                assert(before@.contains((k, t)) <==> before.names(k).contains(t));
            }
        }
        true
    }

    /// Removes a subscription. Returns whether it was there.
    pub fn remove(&mut self, kind: SubscriptionKind, ticker: &str) -> (r: bool)
        requires
            old(self).wf(),
        ensures
            final(self).wf(),
            final(self)@ == old(self)@.remove((kind, ticker@)),
            r == old(self)@.contains((kind, ticker@)),
    {
        if !self.has(kind, ticker) {
            assert(self@ =~= self@.remove((kind, ticker@)));
            return false;
        }
        let ghost before = *self;
        let ghost p = pairs(before.entries@);
        let _there: bool = match kind {
            SubscriptionKind::Quote => self.quotes.remove(ticker),
            SubscriptionKind::BookDetailed => self.books_detailed.remove(ticker),
            SubscriptionKind::BookAggregated => self.books_aggregated.remove(ticker),
            SubscriptionKind::Trades => self.trades.remove(ticker),
        };
        let name: String = ticker.to_owned();
        let mut i: usize = 0;
        proof {
            let at = choose|j: int| 0 <= j < p.len() && p[j] == (kind, ticker@);
            assert(p[at] == (kind, ticker@));
        }
        while i < self.entries.len() && !(self.entries[i].0 == kind && self.entries[i].1 == name)
            invariant
                i <= self.entries@.len(),
                self.entries@ == before.entries@,
                p == pairs(before.entries@),
                name@ == ticker@,
                p.contains((kind, ticker@)),
                forall|j: int| 0 <= j < i ==> #[trigger] p[j] != (kind, ticker@),
            decreases self.entries@.len() - i,
        {
            i += 1;
        }
        assert(i < self.entries@.len()) by {
            let at = choose|j: int| 0 <= j < p.len() && p[j] == (kind, ticker@);
            assert(p[at] == (kind, ticker@));
        }
        assert(p[i as int] == (kind, ticker@));
        let _gone = self.entries.swap_remove(i);
        proof {
            let q = pairs(self.entries@);
            let last = p.len() - 1;
            assert(q =~= p.update(i as int, p[last]).drop_last());
            assert forall|x: (SubscriptionKind, Seq<char>)|
                q.contains(x) == (p.contains(x) && x != (kind, ticker@)) by {
                if q.contains(x) {
                    let j = choose|j: int| 0 <= j < q.len() && q[j] == x;
                    let k = if j == i {
                        last
                    } else {
                        j
                    };
                    assert(p[k] == x);
                    assert(k != i);
                }
                if p.contains(x) && x != (kind, ticker@) {
                    let k = choose|k: int| 0 <= k < p.len() && p[k] == x;
                    assert(p[k] == x);
                    let j = if k == last {
                        i as int
                    } else {
                        k
                    };
                    assert(q[j] == x);
                }
            }
            assert(self@ =~= before@.remove((kind, ticker@)));
            assert(q.no_duplicates()) by {
                assert forall|a: int, b: int| 0 <= a < b < q.len() implies q[a] != q[b] by {
                    let ka = if a == i {
                        last
                    } else {
                        a
                    };
                    let kb = if b == i {
                        last
                    } else {
                        b
                    };
                    assert(p[ka] != p[kb]);
                }
            }
            assert forall|k: SubscriptionKind, t: Seq<char>|
                self@.contains((k, t)) <==> #[trigger] self.names(k).contains(t) by {
                assert(before@.contains((k, t)) <==> before.names(k).contains(t));
            }
        }
        true
    }

    /// How many subscriptions are active.
    pub fn len(&self) -> (r: usize)
        requires
            self.wf(),
        ensures
            r == self@.len(),
    {
        proof {
            pairs(self.entries@).unique_seq_to_set();
        }
        self.entries.len()
    }

    /// No subscription is active.
    pub fn is_empty(&self) -> (r: bool)
        requires
            self.wf(),
        ensures
            r == (self@.len() == 0),
    {
        self.len() == 0
    }

    /// Every active subscription once, in no set order.
    pub fn snapshot(&self) -> (r: Vec<(SubscriptionKind, String)>)
        requires
            self.wf(),
        ensures
            pairs(r@).to_set() == self@,
            pairs(r@).no_duplicates(),
    {
        let mut out: Vec<(SubscriptionKind, String)> = Vec::new();
        let mut i: usize = 0;
        while i < self.entries.len()
            invariant
                i <= self.entries@.len(),
                out@ == self.entries@.take(i as int),
            decreases self.entries@.len() - i,
        {
            let (kind, ticker) = &self.entries[i];
            out.push((*kind, ticker.clone()));
            i += 1;
        }
        assert(out@ =~= self.entries@);
        out
    }

    /// The tickers with an active subscription of a kind, each once, in no set
    /// order.
    pub fn snapshot_by_kind(&self, kind: SubscriptionKind) -> (r: Vec<String>)
        requires
            self.wf(),
        ensures
            forall|i: int| 0 <= i < r@.len() ==> self@.contains((kind, (#[trigger] r@[i])@)),
            forall|t: Seq<char>| #[trigger]
                self@.contains((kind, t)) ==> exists|i: int|
                    0 <= i < r@.len() && (#[trigger] r@[i])@ == t,
            forall|i: int, j: int|
                0 <= i < j < r@.len() ==> (#[trigger] r@[i])@ != (#[trigger] r@[j])@,
    {
        let ghost p = pairs(self.entries@);
        let mut out: Vec<String> = Vec::new();
        let ghost mut from: Seq<int> = Seq::empty();
        let mut i: usize = 0;
        while i < self.entries.len()
            invariant
                self.wf(),
                p == pairs(self.entries@),
                i <= self.entries@.len(),
                from.len() == out@.len(),
                forall|a: int|
                    #![trigger from[a]]
                    0 <= a < from.len() ==> 0 <= from[a] < i && p[from[a]] == (kind, out@[a]@),
                forall|a: int, b: int|
                    #![trigger from[a], from[b]]
                    0 <= a < b < from.len() ==> from[a] < from[b],
                forall|j: int|
                    0 <= j < i && (#[trigger] p[j]).0 == kind ==> exists|a: int|
                        0 <= a < from.len() && #[trigger] from[a] == j,
            decreases self.entries@.len() - i,
        {
            let (k, ticker) = &self.entries[i];
            if *k == kind {
                let ghost prior = from;
                out.push(ticker.clone());
                proof {
                    from = from.push(i as int);
                    assert forall|j: int| 0 <= j < i + 1 && (#[trigger] p[j]).0 == kind implies exists|
                        a: int,
                    | 0 <= a < from.len() && #[trigger] from[a] == j by {
                        if j < i {
                            let a = choose|a: int| 0 <= a < prior.len() && #[trigger] prior[a] == j;
                            assert(from[a] == j);
                        } else {
                            assert(from[prior.len() as int] == j);
                        }
                    }
                }
            }
            i += 1;
        }
        proof {
            assert forall|a: int| 0 <= a < out@.len() implies self@.contains(
                (kind, (#[trigger] out@[a])@),
            ) by {
                assert(p[from[a]] == (kind, out@[a]@));
                assert(p.contains((kind, out@[a]@)));
            }
            assert forall|t: Seq<char>| #[trigger] self@.contains((kind, t)) implies exists|a: int|
                0 <= a < out@.len() && (#[trigger] out@[a])@ == t by {
                let j = choose|j: int| 0 <= j < p.len() && p[j] == (kind, t);
                assert(p[j].0 == kind);
                let a = choose|a: int| 0 <= a < from.len() && #[trigger] from[a] == j;
                assert(from[a] == j);
                assert(out@[a]@ == t);
            }
            assert forall|a: int, b: int| 0 <= a < b < out@.len() implies (#[trigger] out@[a])@ != (
            #[trigger] out@[b])@ by {
                assert(from[a] < from[b]);
                assert(p[from[a]] != p[from[b]]);
            }
        }
        out
    }
}

impl Default for SubscriptionRegistry {
    fn default() -> (r: Self)
        ensures
            r.wf(),
            r@ == Set::<(SubscriptionKind, Seq<char>)>::empty(),
    {
        SubscriptionRegistry::new()
    }
}

/// Adding twice is adding once, and removing takes back an add of something
/// new.
pub proof fn law_add_and_remove(
    s: Set<(SubscriptionKind, Seq<char>)>,
    x: (SubscriptionKind, Seq<char>),
)
    ensures
        s.insert(x).insert(x) == s.insert(x),
        !s.contains(x) ==> s.insert(x).remove(x) == s,
{
    assert(s.insert(x).insert(x) =~= s.insert(x));
    assert(!s.contains(x) ==> s.insert(x).remove(x) =~= s);
}

/// How the kinds of subscription are named.
pub proof fn law_kinds_are_named()
    ensures
        kind_text(SubscriptionKind::Quote) == "quote",
        kind_text(SubscriptionKind::BookDetailed) == "book_detailed",
        kind_text(SubscriptionKind::BookAggregated) == "book_aggregated",
        kind_text(SubscriptionKind::Trades) == "trades",
{
}

/// A list of subscriptions is listed entry by entry.
pub proof fn law_entries_are_listed(s: Seq<(SubscriptionKind, String)>, i: int)
    requires
        0 <= i < s.len(),
    ensures
        pairs(s).len() == s.len(),
        pairs(s)[i].0 == s[i].0,
        pairs(s)[i].1 == s[i].1@,
{
}

/// A subscription is there once it was added and gone once it was removed; both
/// tell whether that changed anything, and no other subscription is touched.
pub proof fn law_subscriptions_come_and_go(
    kind: SubscriptionKind,
    ticker: &str,
    other: (SubscriptionKind, Seq<char>),
)
    requires
        other != (kind, ticker@),
    ensures
        forall|s: &mut SubscriptionRegistry, r: bool| #[trigger]
            call_ensures(SubscriptionRegistry::add, (s, kind, ticker), r) ==> {
                &&& final(s)@.contains((kind, ticker@))
                &&& r == !(*s)@.contains((kind, ticker@))
                &&& final(s)@.contains(other) == (*s)@.contains(other)
            },
        forall|s: &mut SubscriptionRegistry, r: bool| #[trigger]
            call_ensures(SubscriptionRegistry::remove, (s, kind, ticker), r) ==> {
                &&& !final(s)@.contains((kind, ticker@))
                &&& r == (*s)@.contains((kind, ticker@))
                &&& final(s)@.contains(other) == (*s)@.contains(other)
            },
{
}

} // verus!
