//! Names of stored snapshots, for whoever reads them.
use crate::fanout::types;
use crate::fanout::types::Kind;
use crate::text;
use vstd::prelude::*;

verus! {

/// What a snapshot is of.
#[derive(Debug, Clone, Copy, PartialEq, Eq, Structural)]
pub enum SnapshotKind {
    Quote,
    Book,
    Trade,
}

/// The name of a snapshot kind in keys.
pub open spec fn kind_text(kind: SnapshotKind) -> &'static str {
    match kind {
        SnapshotKind::Quote => "quote",
        SnapshotKind::Book => "book",
        SnapshotKind::Trade => "trade",
    }
}

impl SnapshotKind {
    /// The name of the kind in keys.
    pub fn as_str(self) -> (r: &'static str)
        ensures
            r == kind_text(self),
    {
        match self {
            SnapshotKind::Quote => "quote",
            SnapshotKind::Book => "book",
            SnapshotKind::Trade => "trade",
        }
    }
}

/// The key of a snapshot.
pub open spec fn snapshot_key(kind: SnapshotKind, ticker: Seq<char>) -> Seq<char> {
    "market:"@ + kind_text(kind)@ + ":"@ + ticker
}

/// Where snapshots are found. Fetching them is up to whoever holds the
/// connection.
#[derive(Debug)]
pub struct SnapshotStore;

impl SnapshotStore {
    /// The key of a snapshot, the one that it is published under.
    pub fn key(kind: SnapshotKind, ticker: &str) -> (r: String)
        ensures
            r@ == snapshot_key(kind, ticker@),
    {
        let mut out: String = "market:".to_owned();
        out.append(kind.as_str());
        out.append(":");
        out.append(ticker);
        out
    }

    /// The keys of many snapshots, in order.
    pub fn batch_keys(kind: SnapshotKind, tickers: &Vec<String>) -> (r: Vec<String>)
        ensures
            r@.len() == tickers@.len(),
            forall|i: int|
                0 <= i < r@.len() ==> (#[trigger] r@[i])@ == snapshot_key(kind, tickers@[i]@),
    {
        let mut out: Vec<String> = Vec::new();
        let mut i: usize = 0;
        while i < tickers.len()
            invariant
                i <= tickers@.len(),
                out@.len() == i,
                forall|j: int|
                    0 <= j < i ==> (#[trigger] out@[j])@ == snapshot_key(kind, tickers@[j]@),
            decreases tickers@.len() - i,
        {
            out.push(SnapshotStore::key(kind, tickers[i].as_str()));
            i += 1;
        }
        out
    }
}

/// The published kind that a snapshot is of.
pub open spec fn published_kind(kind: SnapshotKind) -> Kind {
    match kind {
        SnapshotKind::Quote => Kind::Quote,
        SnapshotKind::Book => Kind::Book,
        SnapshotKind::Trade => Kind::Trade,
    }
}

/// What is published is found: a snapshot of a ticker is looked up under the key
/// that it was stored under.
pub proof fn law_reads_find_writes(kind: SnapshotKind, ticker: Seq<char>)
    ensures
        snapshot_key(kind, ticker) == types::snapshot_key(
            published_kind(kind),
            vstd::utf8::encode_utf8(ticker),
        ),
{
    text::law_text_is_readable(ticker);
}

/// The keys of snapshots, and the kinds that they are published as.
pub proof fn law_keys_are_spelled(ticker: Seq<char>)
    ensures
        kind_text(SnapshotKind::Quote) == "quote",
        kind_text(SnapshotKind::Book) == "book",
        kind_text(SnapshotKind::Trade) == "trade",
        snapshot_key(SnapshotKind::Quote, ticker) == "market:quote:"@ + ticker,
        snapshot_key(SnapshotKind::Book, ticker) == "market:book:"@ + ticker,
        snapshot_key(SnapshotKind::Trade, ticker) == "market:trade:"@ + ticker,
        published_kind(SnapshotKind::Quote) == Kind::Quote,
        published_kind(SnapshotKind::Book) == Kind::Book,
        published_kind(SnapshotKind::Trade) == Kind::Trade,
{
    reveal_strlit("quote");
    reveal_strlit("book");
    reveal_strlit("trade");
    reveal_strlit("market:");
    reveal_strlit(":");
    reveal_strlit("market:quote:");
    reveal_strlit("market:book:");
    reveal_strlit("market:trade:");
    assert("market:"@ + "quote"@ + ":"@ =~= "market:quote:"@);
    assert("market:"@ + "book"@ + ":"@ =~= "market:book:"@);
    assert("market:"@ + "trade"@ + ":"@ =~= "market:trade:"@);
}

} // verus!
