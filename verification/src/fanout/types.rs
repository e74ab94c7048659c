//! What is published, and under which names.
use crate::text;
use crate::wire;
use bytes::Bytes;
use vstd::prelude::*;

verus! {

/// What a payload is about.
#[derive(Debug, Clone, Copy, PartialEq, Eq, Hash, Structural)]
pub enum Kind {
    Quote,
    Book,
    Trade,
}

/// The name of a kind in subjects and keys.
pub open spec fn kind_text(kind: Kind) -> &'static str {
    match kind {
        Kind::Quote => "quote",
        Kind::Book => "book",
        Kind::Trade => "trade",
    }
}

impl Kind {
    /// The name of the kind in subjects and keys.
    #[must_use]
    pub fn as_str(self) -> (r: &'static str)
        ensures
            r == kind_text(self),
    {
        match self {
            Kind::Quote => "quote",
            Kind::Book => "book",
            Kind::Trade => "trade",
        }
    }
}

/// What a payload is about, and of which ticker.
#[derive(Debug, Clone, PartialEq, Eq, Hash)]
pub struct PublishKey {
    pub kind: Kind,
    pub ticker: Bytes,
}

/// The subject that live updates go to.
pub open spec fn subject(kind: Kind, ticker: Seq<u8>) -> Seq<char> {
    "market."@ + kind_text(kind)@ + "."@ + text::readable(ticker)
}

/// The key that the latest snapshot is stored under.
pub open spec fn snapshot_key(kind: Kind, ticker: Seq<u8>) -> Seq<char> {
    "market:"@ + kind_text(kind)@ + ":"@ + text::readable(ticker)
}

impl PublishKey {
    pub fn new(kind: Kind, ticker: Bytes) -> (r: Self)
        ensures
            r.kind == kind,
            r.ticker == ticker,
    {
        PublishKey { kind, ticker }
    }

    /// The subject that live updates go to, such as `market.quote.PETR4`.
    pub fn nats_subject(&self) -> (r: String)
        ensures
            r@ == subject(self.kind, wire::content(self.ticker)),
    {
        let mut out: String = "market.".to_owned();
        out.append(self.kind.as_str());
        out.append(".");
        text::push_readable(&mut out, wire::as_slice(&self.ticker));
        out
    }

    /// The key that the latest snapshot is stored under, such as
    /// `market:quote:PETR4`.
    pub fn redis_key(&self) -> (r: String)
        ensures
            r@ == snapshot_key(self.kind, wire::content(self.ticker)),
    {
        let mut out: String = "market:".to_owned();
        out.append(self.kind.as_str());
        out.append(":");
        text::push_readable(&mut out, wire::as_slice(&self.ticker));
        out
    }
}

proof fn lemma_kind_texts()
    ensures
        "quote"@ == seq!['q', 'u', 'o', 't', 'e'],
        "book"@ == seq!['b', 'o', 'o', 'k'],
        "trade"@ == seq!['t', 'r', 'a', 'd', 'e'],
{
    reveal_strlit("quote");
    reveal_strlit("book");
    reveal_strlit("trade");
    assert("quote"@ =~= seq!['q', 'u', 'o', 't', 'e']);
    assert("book"@ =~= seq!['b', 'o', 'o', 'k']);
    assert("trade"@ =~= seq!['t', 'r', 'a', 'd', 'e']);
}

/// Names never collide: two readable tickers share a key, or a subject, only
/// when both kind and ticker are the same.
pub proof fn law_names_are_unique(k1: Kind, t1: Seq<char>, k2: Kind, t2: Seq<char>)
    ensures
        "market:"@ + kind_text(k1)@ + ":"@ + t1 == "market:"@ + kind_text(k2)@ + ":"@ + t2 ==> k1
            == k2 && t1 == t2,
        "market."@ + kind_text(k1)@ + "."@ + t1 == "market."@ + kind_text(k2)@ + "."@ + t2 ==> k1
            == k2 && t1 == t2,
{
    lemma_kind_texts();
    if "market:"@ + kind_text(k1)@ + ":"@ + t1 == "market:"@ + kind_text(k2)@ + ":"@ + t2 {
        lemma_parts("market:"@, kind_text(k1)@, ":"@, t1, kind_text(k2)@, t2);
    }
    if "market."@ + kind_text(k1)@ + "."@ + t1 == "market."@ + kind_text(k2)@ + "."@ + t2 {
        lemma_parts("market."@, kind_text(k1)@, "."@, t1, kind_text(k2)@, t2);
    }
}

/// Where a separator stands first tells two names apart.
proof fn lemma_parts(
    head: Seq<char>,
    a: Seq<char>,
    sep: Seq<char>,
    x: Seq<char>,
    b: Seq<char>,
    y: Seq<char>,
)
    requires
        head + a + sep + x == head + b + sep + y,
    ensures
        a + sep + x == b + sep + y,
        a.len() == b.len() ==> a == b && x == y,
        a.len() > 0 && b.len() > 0 ==> a[0] == b[0],
{
    let s = head + a + sep + x;
    let t = head + b + sep + y;
    assert(a + sep + x =~= s.skip(head.len() as int));
    assert(b + sep + y =~= t.skip(head.len() as int));
    let u = a + sep + x;
    let v = b + sep + y;
    if a.len() == b.len() {
        assert(a =~= u.take(a.len() as int));
        assert(b =~= v.take(b.len() as int));
        assert(x =~= u.skip((a.len() + sep.len()) as int));
        assert(y =~= v.skip((b.len() + sep.len()) as int));
    }
    if a.len() > 0 && b.len() > 0 {
        assert(a[0] == u[0]);
        assert(b[0] == v[0]);
    }
}

/// The words of the kinds, and the names that are made of them.
pub proof fn law_names_are_spelled(ticker: Seq<u8>)
    ensures
        kind_text(Kind::Quote) == "quote",
        kind_text(Kind::Book) == "book",
        kind_text(Kind::Trade) == "trade",
        subject(Kind::Quote, ticker) == "market.quote."@ + text::readable(ticker),
        subject(Kind::Book, ticker) == "market.book."@ + text::readable(ticker),
        subject(Kind::Trade, ticker) == "market.trade."@ + text::readable(ticker),
        snapshot_key(Kind::Quote, ticker) == "market:quote:"@ + text::readable(ticker),
        snapshot_key(Kind::Book, ticker) == "market:book:"@ + text::readable(ticker),
        snapshot_key(Kind::Trade, ticker) == "market:trade:"@ + text::readable(ticker),
{
    reveal_strlit("quote");
    reveal_strlit("book");
    reveal_strlit("trade");
    reveal_strlit("market.");
    reveal_strlit("market:");
    reveal_strlit(".");
    reveal_strlit(":");
    reveal_strlit("market.quote.");
    reveal_strlit("market.book.");
    reveal_strlit("market.trade.");
    reveal_strlit("market:quote:");
    reveal_strlit("market:book:");
    reveal_strlit("market:trade:");
    assert("market."@ + "quote"@ + "."@ =~= "market.quote."@);
    assert("market."@ + "book"@ + "."@ =~= "market.book."@);
    assert("market."@ + "trade"@ + "."@ =~= "market.trade."@);
    assert("market:"@ + "quote"@ + ":"@ =~= "market:quote:"@);
    assert("market:"@ + "book"@ + ":"@ =~= "market:book:"@);
    assert("market:"@ + "trade"@ + ":"@ =~= "market:trade:"@);
}

} // verus!
