//! The order book of one ticker.
//!
//! Each side is a list in the order that the feed dictates: index zero is the
//! best price. Entries that carry an order id are found again through a table
//! from ids to places, which every operation keeps in step with the lists.
use crate::market::order_index;
use crate::protocol::enums::Side;
use crate::protocol::types::{BookDelete, BookEntry, BookOp};
use crate::wire;
use ahash::AHashMap;
use bytes::Bytes;
use vstd::prelude::*;

verus! {

/// How many entries each side has.
#[derive(Debug, Clone, Copy, PartialEq, Eq, Structural)]
pub struct OrderBookStats {
    pub bids: usize,
    pub asks: usize,
}

impl Default for OrderBookStats {
    fn default() -> (r: Self)
        ensures
            r.bids == 0 && r.asks == 0,
    {
        OrderBookStats { bids: 0, asks: 0 }
    }
}

/// A book as mathematics sees it.
pub struct BookModel {
    /// Buy side, best first.
    pub bids: Seq<BookEntry>,
    /// Sell side, best first.
    pub asks: Seq<BookEntry>,
    /// Side and index that each known order id points to.
    pub index: Map<Seq<u8>, (Side, nat)>,
    /// The initial snapshot is complete.
    pub initialised: bool,
}

/// The entries of one side.
pub open spec fn entries(m: BookModel, side: Side) -> Seq<BookEntry> {
    match side {
        Side::Buy => m.bids,
        Side::Sell => m.asks,
    }
}

/// The book with the entries of one side, and the index, replaced.
pub open spec fn with_side(
    m: BookModel,
    side: Side,
    s: Seq<BookEntry>,
    index: Map<Seq<u8>, (Side, nat)>,
) -> BookModel {
    match side {
        Side::Buy => BookModel { bids: s, index, ..m },
        Side::Sell => BookModel { asks: s, index, ..m },
    }
}

/// The bytes of an entry's order id.
pub open spec fn id_of(e: BookEntry) -> Option<Seq<u8>> {
    match e.order_id {
        Some(id) => Some(wire::content(id)),
        None => None,
    }
}

/// The index with every place of `side` from `from` on moved one down the list.
pub open spec fn raised(
    index: Map<Seq<u8>, (Side, nat)>,
    side: Side,
    from: nat,
) -> Map<Seq<u8>, (Side, nat)> {
    index.map_values(
        |p: (Side, nat)|
            if p.0 == side && p.1 >= from {
                (p.0, p.1 + 1)
            } else {
                p
            },
    )
}

/// The index with every place of `side` from `from` on moved `by` up the list.
pub open spec fn lowered(
    index: Map<Seq<u8>, (Side, nat)>,
    side: Side,
    from: nat,
    by: nat,
) -> Map<Seq<u8>, (Side, nat)> {
    index.map_values(
        |p: (Side, nat)|
            if p.0 == side && p.1 >= from {
                (p.0, (p.1 - by) as nat)
            } else {
                p
            },
    )
}

/// Where an entry goes on a side of `len` entries: its position, or the end.
pub open spec fn slot(e: BookEntry, len: nat) -> nat {
    if e.position < len {
        e.position as nat
    } else {
        len
    }
}

/// The book after an entry was added.
pub open spec fn added(m: BookModel, e: BookEntry) -> BookModel {
    let s = entries(m, e.side);
    let p = slot(e, s.len());
    let index = raised(m.index, e.side, p);
    with_side(
        m,
        e.side,
        s.insert(p as int, e),
        match id_of(e) {
            Some(id) => index.insert(id, (e.side, p)),
            None => index,
        },
    )
}

/// The book after the entry at index `p` of a side was removed.
pub open spec fn removed(m: BookModel, side: Side, p: nat) -> BookModel {
    let s = entries(m, side);
    with_side(
        m,
        side,
        s.remove(p as int),
        lowered(
            match id_of(s[p as int]) {
                Some(id) => m.index.remove(id),
                None => m.index,
            },
            side,
            p + 1,
            1,
        ),
    )
}

/// One of the first `n` entries carries this id.
pub open spec fn among(s: Seq<BookEntry>, n: nat, id: Seq<u8>) -> bool {
    exists|i: int| 0 <= i < n && #[trigger] id_of(s[i]) == Some(id)
}

/// The index without the ids of the first `n` entries.
pub open spec fn without_ids(
    index: Map<Seq<u8>, (Side, nat)>,
    s: Seq<BookEntry>,
    n: nat,
) -> Map<Seq<u8>, (Side, nat)> {
    Map::new(|k: Seq<u8>| index.contains_key(k) && !among(s, n, k), |k: Seq<u8>| index[k])
}

/// The book after the first `n` entries of a side were removed.
pub open spec fn dropped(m: BookModel, side: Side, n: nat) -> BookModel {
    let s = entries(m, side);
    with_side(m, side, s.skip(n as int), lowered(without_ids(m.index, s, n), side, n, n))
}

/// The book after an entry moved from `old_pos`. Where there is none at that
/// place, the entry is added.
pub open spec fn moved(m: BookModel, old_pos: u32, e: BookEntry) -> BookModel {
    if old_pos < entries(m, e.side).len() {
        added(removed(m, e.side, old_pos as nat), e)
    } else {
        added(m, e)
    }
}

/// The book after a delete. A position behind the last entry deletes nothing
/// on its own, and everything as the end of a prefix.
pub open spec fn deleted(m: BookModel, d: BookDelete) -> BookModel {
    match d {
        BookDelete::Single { side, position } => if position < entries(m, side).len() {
            removed(m, side, position as nat)
        } else {
            m
        },
        BookDelete::PrefixInclusive { side, position } => {
            let len = entries(m, side).len();
            dropped(
                m,
                side,
                if position < len {
                    (position + 1) as nat
                } else {
                    len
                },
            )
        },
        BookDelete::ClearAll => BookModel {
            bids: Seq::empty(),
            asks: Seq::empty(),
            index: Map::empty(),
            initialised: m.initialised,
        },
    }
}

/// The book after an operation.
pub open spec fn applied(m: BookModel, op: BookOp) -> BookModel {
    match op {
        BookOp::Add(e) => added(m, e),
        BookOp::Update { old_pos, entry } => moved(m, old_pos, entry),
        BookOp::Delete(d) => deleted(m, d),
        BookOp::EndOfInitial => BookModel { initialised: true, ..m },
    }
}

/// Every id of the index points to an entry that carries it.
pub open spec fn aligned(m: BookModel) -> bool {
    forall|id: Seq<u8>| #[trigger]
        m.index.contains_key(id) ==> {
            let (side, i) = m.index[id];
            i < entries(m, side).len() && id_of(entries(m, side)[i as int]) == Some(id)
        }
}

/// Every entry that carries an id is the one that the index gives for it.
pub open spec fn complete(m: BookModel) -> bool {
    forall|side: Side, i: int|
        0 <= i < entries(m, side).len() ==> match id_of(#[trigger] entries(m, side)[i]) {
            Some(id) => m.index.contains_key(id) && m.index[id] == (side, i as nat),
            None => true,
        }
}

/// A complete book for one ticker.
#[derive(Debug)]
pub struct OrderBook {
    bids: Vec<BookEntry>,
    asks: Vec<BookEntry>,
    by_order_id: AHashMap<Bytes, (Side, usize)>,
    initialised: bool,
}

impl View for OrderBook {
    type V = BookModel;

    closed spec fn view(&self) -> BookModel {
        BookModel {
            bids: self.bids@,
            asks: self.asks@,
            index: order_index::places(self.by_order_id),
            initialised: self.initialised,
        }
    }
}

/// A book without entries whose snapshot has not begun.
pub open spec fn fresh() -> BookModel {
    BookModel {
        bids: Seq::empty(),
        asks: Seq::empty(),
        index: Map::empty(),
        initialised: false,
    }
}

impl Default for OrderBook {
    fn default() -> (r: Self)
        ensures
            r@ == fresh(),
            r.wf(),
    {
        OrderBook {
            bids: Vec::new(),
            asks: Vec::new(),
            by_order_id: order_index::new_index(),
            initialised: false,
        }
    }
}

impl OrderBook {
    /// The index is in step with the entries.
    pub open spec fn wf(&self) -> bool {
        aligned(self@)
    }

    /// Applies one operation. Returns `true` once the initial snapshot is
    /// complete: from then on the book can be shown.
    pub fn apply(&mut self, op: BookOp) -> (r: bool)
        requires
            old(self).wf(),
        ensures
            final(self).wf(),
            final(self)@ == applied(old(self)@, op),
            r == final(self)@.initialised,
    {
        proof {
            law_index_stays_aligned(self@, op);
        }
        match op {
            BookOp::Add(entry) => self.insert_entry(entry),
            BookOp::Update { old_pos, entry } => self.update(old_pos, entry),
            BookOp::Delete(d) => self.delete(d),
            BookOp::EndOfInitial => {
                self.initialised = true;
            },
        }
        self.initialised
    }

    /// Adds an entry at its position, or at the end.
    fn insert_entry(&mut self, entry: BookEntry)
        requires
            old(self).wf(),
        ensures
            final(self)@ == added(old(self)@, entry),
    {
        let side = entry.side;
        let pos: usize = entry.position as usize;
        let id: Option<Bytes> = match &entry.order_id {
            Some(b) => Some(b.clone()),
            None => None,
        };
        let len: usize = match side {
            Side::Buy => self.bids.len(),
            Side::Sell => self.asks.len(),
        };
        let idx: usize = if pos < len {
            pos
        } else {
            len
        };
        let ghost m = self@;
        if pos < len {
            self.raise_from(side, pos);
        } else {
            assert(raised(m.index, side, len as nat) =~= m.index);
        }
        match side {
            Side::Buy => self.bids.insert(idx, entry),
            Side::Sell => self.asks.insert(idx, entry),
        }
        if let Some(id) = id {
            order_index::set_place(&mut self.by_order_id, id, (side, idx));
        }
    }

    /// Moves the entry at `old_pos`.
    fn update(&mut self, old_pos: u32, entry: BookEntry)
        requires
            old(self).wf(),
        ensures
            final(self)@ == moved(old(self)@, old_pos, entry),
    {
        let side = entry.side;
        let len: usize = match side {
            Side::Buy => self.bids.len(),
            Side::Sell => self.asks.len(),
        };
        if (old_pos as usize) < len {
            proof {
                lemma_removed_aligned(self@, side, old_pos as nat);
            }
            self.remove_entry(side, old_pos as usize);
        }
        self.insert_entry(entry);
    }

    /// Deletes one entry, a prefix of a side, or everything.
    fn delete(&mut self, d: BookDelete)
        requires
            old(self).wf(),
        ensures
            final(self)@ == deleted(old(self)@, d),
    {
        match d {
            BookDelete::Single { side, position } => {
                let len: usize = match side {
                    Side::Buy => self.bids.len(),
                    Side::Sell => self.asks.len(),
                };
                if (position as usize) < len {
                    self.remove_entry(side, position as usize);
                }
            },
            BookDelete::PrefixInclusive { side, position } => {
                let len: usize = match side {
                    Side::Buy => self.bids.len(),
                    Side::Sell => self.asks.len(),
                };
                let pos: usize = position as usize;
                let end: usize = if pos < len {
                    pos + 1
                } else {
                    len
                };
                self.remove_prefix(side, end);
            },
            BookDelete::ClearAll => {
                self.bids.clear();
                self.asks.clear();
                order_index::forget_all(&mut self.by_order_id);
            },
        }
    }

    /// Removes the entry at index `pos` of a side.
    fn remove_entry(&mut self, side: Side, pos: usize)
        requires
            old(self).wf(),
            pos < entries(old(self)@, side).len(),
        ensures
            final(self)@ == removed(old(self)@, side, pos as nat),
    {
        proof {
            assert(self.bids.len() == self.bids@.len());
            assert(self.asks.len() == self.asks@.len());
        }
        let gone: BookEntry = match side {
            Side::Buy => self.bids.remove(pos),
            Side::Sell => self.asks.remove(pos),
        };
        if let Some(id) = gone.order_id {
            order_index::forget(&mut self.by_order_id, wire::as_slice(&id));
        }
        self.lower_from(side, pos + 1, 1);
    }

    /// Removes the first `end` entries of a side.
    fn remove_prefix(&mut self, side: Side, end: usize)
        requires
            old(self).wf(),
            end <= entries(old(self)@, side).len(),
        ensures
            final(self)@ == dropped(old(self)@, side, end as nat),
    {
        let ghost m = self@;
        let ghost s = entries(m, side);
        let mut gone: Vec<BookEntry> = match side {
            Side::Buy => self.bids.split_off(end),
            Side::Sell => self.asks.split_off(end),
        };
        match side {
            Side::Buy => std::mem::swap(&mut gone, &mut self.bids),
            Side::Sell => std::mem::swap(&mut gone, &mut self.asks),
        }
        assert(gone@ =~= s.take(end as int));
        assert(entries(self@, side) =~= s.skip(end as int));
        let mut i: usize = 0;
        assert(without_ids(m.index, s, 0) =~= m.index);
        while i < gone.len()
            invariant
                i <= gone@.len(),
                end <= s.len(),
                gone@ == s.take(end as int),
                self@ == with_side(m, side, s.skip(end as int), without_ids(m.index, s, i as nat)),
            decreases gone@.len() - i,
        {
            if let Some(id) = &gone[i].order_id {
                order_index::forget(&mut self.by_order_id, wire::as_slice(id));
            }
            assert(gone@[i as int] == s[i as int]);
            assert(self@.index =~= without_ids(m.index, s, (i + 1) as nat)) by {
                assert forall|k: Seq<u8>|
                    among(s, (i + 1) as nat, k) == (among(s, i as nat, k) || id_of(s[i as int])
                        == Some(k)) by {
                    if among(s, (i + 1) as nat, k) {
                        let j = choose|j: int|
                            0 <= j < i + 1 && #[trigger] id_of(s[j]) == Some(k);
                        assert(id_of(s[j]) == Some(k));
                    }
                    if among(s, i as nat, k) {
                        let j = choose|j: int| 0 <= j < i && #[trigger] id_of(s[j]) == Some(k);
                        assert(id_of(s[j]) == Some(k));
                    }
                }
            }
            i += 1;
        }
        self.lower_from(side, end, end);
    }

    /// Moves the places of `side` from `from` on one down the list.
    fn raise_from(&mut self, side: Side, from: usize)
        requires
            old(self).wf(),
        ensures
            final(self)@ == (BookModel {
                index: raised(old(self)@.index, side, from as nat),
                ..old(self)@
            }),
    {
        let ghost m = self@;
        proof {
            assert(self.bids.len() == self.bids@.len());
            assert(self.asks.len() == self.asks@.len());
        }
        let ids = order_index::ids(&self.by_order_id);
        let mut i: usize = 0;
        while i < ids.len()
            invariant
                i <= ids@.len(),
                aligned(m),
                m.bids.len() <= usize::MAX,
                m.asks.len() <= usize::MAX,
                self@.bids == m.bids,
                self@.asks == m.asks,
                self@.initialised == m.initialised,
                forall|j: int|
                    0 <= j < ids@.len() ==> m.index.contains_key(wire::content(#[trigger] ids@[j])),
                forall|a: int, b: int|
                    0 <= a < b < ids@.len() ==> wire::content(#[trigger] ids@[a]) != wire::content(
                        #[trigger] ids@[b],
                    ),
                self@.index.dom() == m.index.dom(),
                forall|j: int|
                    0 <= j < i ==> self@.index[wire::content(#[trigger] ids@[j])] == raised(
                        m.index,
                        side,
                        from as nat,
                    )[wire::content(ids@[j])],
                forall|j: int|
                    i <= j < ids@.len() ==> self@.index[wire::content(#[trigger] ids@[j])]
                        == m.index[wire::content(ids@[j])],
            decreases ids@.len() - i,
        {
            let ghost before = self@.index;
            let ghost key = wire::content(ids@[i as int]);
            if let Some((s, at)) = order_index::look_up(
                &self.by_order_id,
                wire::as_slice(&ids[i]),
            ) {
                if s == side && at >= from {
                    assert(m.index.contains_key(key));
                    order_index::set_place(&mut self.by_order_id, ids[i].clone(), (s, at + 1));
                }
            }
            assert(self@.index.dom() =~= m.index.dom());
            i += 1;
        }
        assert(self@.index =~= raised(m.index, side, from as nat)) by {
            assert forall|k: Seq<u8>| m.index.contains_key(k) implies self@.index[k] == raised(
                m.index,
                side,
                from as nat,
            )[k] by {
                let j = choose|j: int|
                    0 <= j < ids@.len() && wire::content(#[trigger] ids@[j]) == k;
                assert(wire::content(ids@[j]) == k);
            }
        }
    }

    /// Moves the places of `side` from `from` on `by` up the list.
    fn lower_from(&mut self, side: Side, from: usize, by: usize)
        requires
            by <= from,
        ensures
            final(self)@ == (BookModel {
                index: lowered(old(self)@.index, side, from as nat, by as nat),
                ..old(self)@
            }),
    {
        let ghost m = self@;
        let ids = order_index::ids(&self.by_order_id);
        let mut i: usize = 0;
        while i < ids.len()
            invariant
                i <= ids@.len(),
                by <= from,
                self@.bids == m.bids,
                self@.asks == m.asks,
                self@.initialised == m.initialised,
                forall|j: int|
                    0 <= j < ids@.len() ==> m.index.contains_key(wire::content(#[trigger] ids@[j])),
                forall|a: int, b: int|
                    0 <= a < b < ids@.len() ==> wire::content(#[trigger] ids@[a]) != wire::content(
                        #[trigger] ids@[b],
                    ),
                self@.index.dom() == m.index.dom(),
                forall|j: int|
                    0 <= j < i ==> self@.index[wire::content(#[trigger] ids@[j])] == lowered(
                        m.index,
                        side,
                        from as nat,
                        by as nat,
                    )[wire::content(ids@[j])],
                forall|j: int|
                    i <= j < ids@.len() ==> self@.index[wire::content(#[trigger] ids@[j])]
                        == m.index[wire::content(ids@[j])],
            decreases ids@.len() - i,
        {
            if let Some((s, at)) = order_index::look_up(
                &self.by_order_id,
                wire::as_slice(&ids[i]),
            ) {
                if s == side && at >= from {
                    order_index::set_place(&mut self.by_order_id, ids[i].clone(), (s, at - by));
                }
            }
            assert(self@.index.dom() =~= m.index.dom());
            i += 1;
        }
        assert(self@.index =~= lowered(m.index, side, from as nat, by as nat)) by {
            assert forall|k: Seq<u8>| m.index.contains_key(k) implies self@.index[k] == lowered(
                m.index,
                side,
                from as nat,
                by as nat,
            )[k] by {
                let j = choose|j: int|
                    0 <= j < ids@.len() && wire::content(#[trigger] ids@[j]) == k;
                assert(wire::content(ids@[j]) == k);
            }
        }
    }

    /// How many entries each side has.
    pub fn stats(&self) -> (r: OrderBookStats)
        ensures
            r.bids == self@.bids.len(),
            r.asks == self@.asks.len(),
    {
        OrderBookStats { bids: self.bids.len(), asks: self.asks.len() }
    }

    /// The first entry of the buy side.
    pub fn best_bid(&self) -> (r: Option<&BookEntry>)
        ensures
            match r {
                Some(e) => self@.bids.len() > 0 && *e == self@.bids[0],
                None => self@.bids.len() == 0,
            },
    {
        if self.bids.len() > 0 {
            Some(&self.bids[0])
        } else {
            None
        }
    }

    /// The first entry of the sell side.
    pub fn best_ask(&self) -> (r: Option<&BookEntry>)
        ensures
            match r {
                Some(e) => self@.asks.len() > 0 && *e == self@.asks[0],
                None => self@.asks.len() == 0,
            },
    {
        if self.asks.len() > 0 {
            Some(&self.asks[0])
        } else {
            None
        }
    }

    /// The buy side, best first.
    pub fn bids(&self) -> (r: &[BookEntry])
        ensures
            r@ == self@.bids,
    {
        self.bids.as_slice()
    }

    /// The sell side, best first.
    pub fn asks(&self) -> (r: &[BookEntry])
        ensures
            r@ == self@.asks,
    {
        self.asks.as_slice()
    }

    /// The initial snapshot is complete.
    pub fn is_initialised(&self) -> (r: bool)
        ensures
            r == self@.initialised,
    {
        self.initialised
    }

    /// Side and index of the entry that carries an order id.
    pub fn place_of(&self, order_id: &[u8]) -> (r: Option<(Side, usize)>)
        ensures
            match r {
                Some((side, i)) => self@.index.contains_key(order_id@) && self@.index[order_id@]
                    == (side, i as nat),
                None => !self@.index.contains_key(order_id@),
            },
    {
        order_index::look_up(&self.by_order_id, order_id)
    }

    /// How many order ids can be looked up.
    pub fn indexed_orders(&self) -> (r: usize)
        ensures
            r == self@.index.len(),
    {
        order_index::count(&self.by_order_id)
    }
}

proof fn lemma_added_aligned(m: BookModel, e: BookEntry)
    requires
        aligned(m),
    ensures
        aligned(added(m, e)),
{
    let n = added(m, e);
    let p = slot(e, entries(m, e.side).len());
    assert forall|id: Seq<u8>| #[trigger] n.index.contains_key(id) implies {
        let (side, i) = n.index[id];
        i < entries(n, side).len() && id_of(entries(n, side)[i as int]) == Some(id)
    } by {
        if id_of(e) != Some(id) {
            assert(m.index.contains_key(id));
        }
    }
}

proof fn lemma_removed_aligned(m: BookModel, side: Side, p: nat)
    requires
        aligned(m),
        p < entries(m, side).len(),
    ensures
        aligned(removed(m, side, p)),
{
    let n = removed(m, side, p);
    assert forall|id: Seq<u8>| #[trigger] n.index.contains_key(id) implies {
        let (s, i) = n.index[id];
        i < entries(n, s).len() && id_of(entries(n, s)[i as int]) == Some(id)
    } by {
        assert(m.index.contains_key(id));
    }
}

proof fn lemma_dropped_aligned(m: BookModel, side: Side, n: nat)
    requires
        aligned(m),
        n <= entries(m, side).len(),
    ensures
        aligned(dropped(m, side, n)),
{
    let d = dropped(m, side, n);
    assert forall|id: Seq<u8>| #[trigger] d.index.contains_key(id) implies {
        let (s, i) = d.index[id];
        i < entries(d, s).len() && id_of(entries(d, s)[i as int]) == Some(id)
    } by {
        assert(m.index.contains_key(id));
        let (s, i) = m.index[id];
        if s == side && i < n {
            assert(id_of(entries(m, side)[i as int]) == Some(id));
            assert(among(entries(m, side), n, id));
        }
    }
}

/// Whatever the operations and the ids, the index never points to a wrong
/// entry: each keeps it aligned.
pub proof fn law_index_stays_aligned(m: BookModel, op: BookOp)
    requires
        aligned(m),
    ensures
        aligned(applied(m, op)),
{
    match op {
        BookOp::Add(e) => lemma_added_aligned(m, e),
        BookOp::Update { old_pos, entry } => {
            if old_pos < entries(m, entry.side).len() {
                lemma_removed_aligned(m, entry.side, old_pos as nat);
                lemma_added_aligned(removed(m, entry.side, old_pos as nat), entry);
            } else {
                lemma_added_aligned(m, entry);
            }
        },
        BookOp::Delete(d) => match d {
            BookDelete::Single { side, position } => {
                if position < entries(m, side).len() {
                    lemma_removed_aligned(m, side, position as nat);
                }
            },
            BookDelete::PrefixInclusive { side, position } => {
                let len = entries(m, side).len();
                lemma_dropped_aligned(
                    m,
                    side,
                    if position < len {
                        (position + 1) as nat
                    } else {
                        len
                    },
                );
            },
            BookDelete::ClearAll => {},
        },
        BookOp::EndOfInitial => {
            assert forall|id: Seq<u8>| #[trigger]
                applied(m, op).index.contains_key(id) implies m.index.contains_key(id) by {}
        },
    }
}

/// The index knows every order as long as the feed gives each a fresh id: an
/// added entry's id is new to the book, and a moved one's is new or its own.
pub open spec fn fresh_id(m: BookModel, op: BookOp) -> bool {
    match op {
        BookOp::Add(e) => id_of(e) matches Some(id) ==> !m.index.contains_key(id),
        BookOp::Update { old_pos, entry } => id_of(entry) matches Some(id) ==> (
        !m.index.contains_key(id) || (old_pos < entries(m, entry.side).len() && id_of(
            entries(m, entry.side)[old_pos as int],
        ) == Some(id))),
        _ => true,
    }
}

proof fn lemma_added_complete(m: BookModel, e: BookEntry)
    requires
        complete(m),
        id_of(e) matches Some(id) ==> !m.index.contains_key(id),
    ensures
        complete(added(m, e)),
{
    let n = added(m, e);
    let p = slot(e, entries(m, e.side).len());
    assert forall|side: Side, i: int| 0 <= i < entries(n, side).len() implies match id_of(
        #[trigger] entries(n, side)[i],
    ) {
        Some(id) => n.index.contains_key(id) && n.index[id] == (side, i as nat),
        None => true,
    } by {
        let x = entries(n, side)[i];
        if side == e.side && i == p {
            assert(x == e);
        } else {
            let j = if side == e.side && i > p {
                i - 1
            } else {
                i
            };
            assert(entries(m, side)[j] == x);
        }
    }
}

proof fn lemma_removed_complete(m: BookModel, side: Side, p: nat)
    requires
        complete(m),
        p < entries(m, side).len(),
    ensures
        complete(removed(m, side, p)),
        forall|id: Seq<u8>| #[trigger]
            removed(m, side, p).index.contains_key(id) ==> m.index.contains_key(id) && id_of(
                entries(m, side)[p as int],
            ) != Some(id),
{
    let n = removed(m, side, p);
    let gone = entries(m, side)[p as int];
    assert forall|s: Side, i: int| 0 <= i < entries(n, s).len() implies match id_of(
        #[trigger] entries(n, s)[i],
    ) {
        Some(id) => n.index.contains_key(id) && n.index[id] == (s, i as nat),
        None => true,
    } by {
        let x = entries(n, s)[i];
        let j = if s == side && i >= p {
            i + 1
        } else {
            i
        };
        assert(entries(m, s)[j] == x);
        if id_of(gone) is Some {
            assert(m.index[id_of(gone)->0] == (side, p));
        }
    }
}

proof fn lemma_dropped_complete(m: BookModel, side: Side, n: nat)
    requires
        complete(m),
        n <= entries(m, side).len(),
    ensures
        complete(dropped(m, side, n)),
{
    let d = dropped(m, side, n);
    let all = entries(m, side);
    assert forall|s: Side, i: int| 0 <= i < entries(d, s).len() implies match id_of(
        #[trigger] entries(d, s)[i],
    ) {
        Some(id) => d.index.contains_key(id) && d.index[id] == (s, i as nat),
        None => true,
    } by {
        let x = entries(d, s)[i];
        let j = if s == side {
            i + n
        } else {
            i
        };
        assert(entries(m, s)[j] == x);
        if id_of(x) is Some {
            let id = id_of(x)->0;
            assert(m.index[id] == (s, j as nat));
            if among(all, n, id) {
                let k = choose|k: int| 0 <= k < n && #[trigger] id_of(all[k]) == Some(id);
                assert(id_of(entries(m, side)[k]) == Some(id));
                assert(false);
            }
        }
    }
}

/// With fresh ids every order stays findable: each operation keeps the index
/// complete, at the exact place of every entry.
pub proof fn law_index_stays_complete(m: BookModel, op: BookOp)
    requires
        complete(m),
        fresh_id(m, op),
    ensures
        complete(applied(m, op)),
{
    match op {
        BookOp::Add(e) => lemma_added_complete(m, e),
        BookOp::Update { old_pos, entry } => {
            if old_pos < entries(m, entry.side).len() {
                lemma_removed_complete(m, entry.side, old_pos as nat);
                lemma_added_complete(removed(m, entry.side, old_pos as nat), entry);
            } else {
                lemma_added_complete(m, entry);
            }
        },
        BookOp::Delete(d) => match d {
            BookDelete::Single { side, position } => {
                if position < entries(m, side).len() {
                    lemma_removed_complete(m, side, position as nat);
                }
            },
            BookDelete::PrefixInclusive { side, position } => {
                let len = entries(m, side).len();
                lemma_dropped_complete(
                    m,
                    side,
                    if position < len {
                        (position + 1) as nat
                    } else {
                        len
                    },
                );
            },
            BookDelete::ClearAll => {},
        },
        BookOp::EndOfInitial => {
            assert forall|s: Side, i: int|
                0 <= i < entries(applied(m, op), s).len() implies match id_of(
                #[trigger] entries(applied(m, op), s)[i],
            ) {
                Some(id) => m.index.contains_key(id) && m.index[id] == (s, i as nat),
                None => true,
            } by {
                assert(entries(m, s)[i] == entries(applied(m, op), s)[i]);
            }
        },
    }
}

/// The side that an operation is about, if it is about one.
pub open spec fn side_touched(op: BookOp) -> Option<Side> {
    match op {
        BookOp::Add(e) => Some(e.side),
        BookOp::Update { old_pos, entry } => Some(entry.side),
        BookOp::Delete(BookDelete::Single { side, position }) => Some(side),
        BookOp::Delete(BookDelete::PrefixInclusive { side, position }) => Some(side),
        _ => None,
    }
}

/// An operation on one side leaves the entries of the other as they are.
pub proof fn law_sides_are_independent(m: BookModel, op: BookOp, other: Side)
    requires
        side_touched(op) is Some,
        side_touched(op) != Some(other),
    ensures
        entries(applied(m, op), other) == entries(m, other),
{
}

/// A book becomes observable with the end marker, and stays so.
pub proof fn law_observable_from_end_marker_on(m: BookModel, op: BookOp)
    ensures
        applied(m, op).initialised == (m.initialised || op is EndOfInitial),
{
}

/// Clearing leaves nothing of either side, nor of the index.
pub proof fn law_clear_all_leaves_nothing(m: BookModel)
    ensures
        applied(m, BookOp::Delete(BookDelete::ClearAll)) == (BookModel {
            initialised: m.initialised,
            ..fresh()
        }),
{
}

/// Deleting what was just added gives the book back, when its id was new.
pub proof fn law_delete_undoes_add(m: BookModel, e: BookEntry)
    requires
        aligned(m),
        id_of(e) matches Some(id) ==> !m.index.contains_key(id),
    ensures
        removed(added(m, e), e.side, slot(e, entries(m, e.side).len())) == m,
{
    let p = slot(e, entries(m, e.side).len());
    let n = added(m, e);
    let back = removed(n, e.side, p);
    assert(entries(n, e.side)[p as int] == e);
    assert(entries(back, e.side) =~= entries(m, e.side));
    assert(back.index =~= m.index);
}

/// A delete takes away exactly the entries it names, in order.
pub proof fn law_delete_counts(m: BookModel, d: BookDelete)
    ensures
        match d {
            BookDelete::Single { side, position } => entries(deleted(m, d), side).len() == entries(
                m,
                side,
            ).len() - if position < entries(m, side).len() {
                1int
            } else {
                0
            },
            BookDelete::PrefixInclusive { side, position } => entries(deleted(m, d), side)
                == entries(m, side).skip(
                if position < entries(m, side).len() {
                    position + 1
                } else {
                    entries(m, side).len() as int
                },
            ),
            BookDelete::ClearAll => deleted(m, d).bids.len() + deleted(m, d).asks.len() == 0,
        },
{
}

/// An added entry stands at its position, or at the end where the side is
/// shorter. The entries before it keep their index, those behind it are one
/// further down, and the other side stays.
pub proof fn law_add_inserts_at_the_position(m: BookModel, e: BookEntry)
    ensures
        e.side == Side::Buy ==> applied(m, BookOp::Add(e)).asks == m.asks && applied(
            m,
            BookOp::Add(e),
        ).bids == if e.position < m.bids.len() {
            m.bids.take(e.position as int).push(e) + m.bids.skip(e.position as int)
        } else {
            m.bids.push(e)
        },
        e.side == Side::Sell ==> applied(m, BookOp::Add(e)).bids == m.bids && applied(
            m,
            BookOp::Add(e),
        ).asks == if e.position < m.asks.len() {
            m.asks.take(e.position as int).push(e) + m.asks.skip(e.position as int)
        } else {
            m.asks.push(e)
        },
        applied(m, BookOp::Add(e)).initialised == m.initialised,
{
}

/// An added entry with an order id is found under it, at its place.
pub proof fn law_added_order_is_found(m: BookModel, e: BookEntry, id: Bytes)
    requires
        e.order_id == Some(id),
    ensures
        applied(m, BookOp::Add(e)).index.contains_key(wire::content(id)),
        applied(m, BookOp::Add(e)).index[wire::content(id)].0 == e.side,
        e.side == Side::Buy ==> applied(m, BookOp::Add(e)).bids[applied(
            m,
            BookOp::Add(e),
        ).index[wire::content(id)].1 as int] == e,
        e.side == Side::Sell ==> applied(m, BookOp::Add(e)).asks[applied(
            m,
            BookOp::Add(e),
        ).index[wire::content(id)].1 as int] == e,
{
}

/// A moved entry is taken from its old position, if it is there, and then put at
/// its new one, as an added entry is.
pub proof fn law_update_moves_the_entry(m: BookModel, old_pos: u32, e: BookEntry)
    ensures
        e.side == Side::Buy ==> ({
            let left = if old_pos < m.bids.len() {
                m.bids.take(old_pos as int) + m.bids.skip(old_pos + 1)
            } else {
                m.bids
            };
            let after = applied(m, BookOp::Update { old_pos, entry: e });
            after.asks == m.asks && after.bids == if e.position < left.len() {
                left.take(e.position as int).push(e) + left.skip(e.position as int)
            } else {
                left.push(e)
            }
        }),
        e.side == Side::Sell ==> ({
            let left = if old_pos < m.asks.len() {
                m.asks.take(old_pos as int) + m.asks.skip(old_pos + 1)
            } else {
                m.asks
            };
            let after = applied(m, BookOp::Update { old_pos, entry: e });
            after.bids == m.bids && after.asks == if e.position < left.len() {
                left.take(e.position as int).push(e) + left.skip(e.position as int)
            } else {
                left.push(e)
            }
        }),
        applied(m, BookOp::Update { old_pos, entry: e }).initialised == m.initialised,
{
    let s = entries(m, e.side);
    if old_pos < s.len() {
        assert(s.remove(old_pos as int) =~= s.take(old_pos as int) + s.skip(old_pos + 1));
    }
    let left = if old_pos < s.len() {
        s.take(old_pos as int) + s.skip(old_pos + 1)
    } else {
        s
    };
    let after = applied(m, BookOp::Update { old_pos, entry: e });
    assert(entries(after, e.side) =~= if e.position < left.len() {
        left.take(e.position as int).push(e) + left.skip(e.position as int)
    } else {
        left.push(e)
    });
}

/// Deleting one entry leaves exactly that one out: the entries before it keep
/// their index, those behind it are one further up, and the other side stays. A
/// position beyond the side changes nothing.
pub proof fn law_single_delete_leaves_one_out(m: BookModel, position: u32, i: int)
    ensures
        ({
            let after = applied(
                m,
                BookOp::Delete(BookDelete::Single { side: Side::Buy, position }),
            );
            &&& after.asks == m.asks
            &&& after.initialised == m.initialised
            &&& position >= m.bids.len() ==> after == m
            &&& position < m.bids.len() ==> after.bids.len() == m.bids.len() - 1
            &&& position < m.bids.len() && 0 <= i < position ==> after.bids[i] == m.bids[i]
            &&& position < m.bids.len() && position <= i < m.bids.len() - 1 ==> after.bids[i]
                == m.bids[i + 1]
        }),
        ({
            let after = applied(
                m,
                BookOp::Delete(BookDelete::Single { side: Side::Sell, position }),
            );
            &&& after.bids == m.bids
            &&& after.initialised == m.initialised
            &&& position >= m.asks.len() ==> after == m
            &&& position < m.asks.len() ==> after.asks.len() == m.asks.len() - 1
            &&& position < m.asks.len() && 0 <= i < position ==> after.asks[i] == m.asks[i]
            &&& position < m.asks.len() && position <= i < m.asks.len() - 1 ==> after.asks[i]
                == m.asks[i + 1]
        }),
{
}

/// Deleting up to a position leaves what stands behind it, in order, and the
/// other side. A position beyond the side leaves the side empty.
pub proof fn law_prefix_delete_leaves_the_rest(m: BookModel, position: u32, i: int)
    ensures
        ({
            let after = applied(
                m,
                BookOp::Delete(BookDelete::PrefixInclusive { side: Side::Buy, position }),
            );
            &&& after.asks == m.asks
            &&& after.initialised == m.initialised
            &&& position >= m.bids.len() ==> after.bids.len() == 0
            &&& position < m.bids.len() ==> after.bids.len() == m.bids.len() - position - 1
            &&& 0 <= i < m.bids.len() - position - 1 ==> after.bids[i] == m.bids[i + position + 1]
        }),
        ({
            let after = applied(
                m,
                BookOp::Delete(BookDelete::PrefixInclusive { side: Side::Sell, position }),
            );
            &&& after.bids == m.bids
            &&& after.initialised == m.initialised
            &&& position >= m.asks.len() ==> after.asks.len() == 0
            &&& position < m.asks.len() ==> after.asks.len() == m.asks.len() - position - 1
            &&& 0 <= i < m.asks.len() - position - 1 ==> after.asks[i] == m.asks[i + position + 1]
        }),
{
}

/// The end marker changes no entry, and clearing leaves no entry.
pub proof fn law_end_marker_keeps_the_entries(m: BookModel)
    ensures
        applied(m, BookOp::EndOfInitial).bids == m.bids,
        applied(m, BookOp::EndOfInitial).asks == m.asks,
        applied(m, BookOp::EndOfInitial).index == m.index,
        applied(m, BookOp::EndOfInitial).initialised,
        applied(m, BookOp::Delete(BookDelete::ClearAll)).bids.len() == 0,
        applied(m, BookOp::Delete(BookDelete::ClearAll)).asks.len() == 0,
        forall|id: Seq<u8>|
            !(#[trigger] applied(m, BookOp::Delete(BookDelete::ClearAll)).index.contains_key(id)),
        applied(m, BookOp::Delete(BookDelete::ClearAll)).initialised == m.initialised,
{
}

/// A new book is empty and cannot be shown yet.
pub proof fn law_new_book_is_empty(id: Seq<u8>)
    ensures
        fresh().bids.len() == 0,
        fresh().asks.len() == 0,
        !fresh().index.contains_key(id),
        !fresh().initialised,
{
}

/// The best bid and the best ask are the first of their sides.
pub proof fn law_best_entries_stand_first(
    book: OrderBook,
    bid: Option<&BookEntry>,
    ask: Option<&BookEntry>,
    stats: OrderBookStats,
)
    requires
        call_ensures(OrderBook::best_bid, (&book,), bid),
        call_ensures(OrderBook::best_ask, (&book,), ask),
        call_ensures(OrderBook::stats, (&book,), stats),
    ensures
        bid is Some <==> book@.bids.len() > 0,
        bid matches Some(e) ==> *e == book@.bids[0],
        ask is Some <==> book@.asks.len() > 0,
        ask matches Some(e) ==> *e == book@.asks[0],
        stats.bids == book@.bids.len(),
        stats.asks == book@.asks.len(),
{
}

/// Applying an operation does what the laws above say of it, and tells whether
/// the book can be shown.
pub proof fn law_apply_does_the_operation(op: BookOp)
    ensures
        forall|book: &mut OrderBook, r: bool| #[trigger]
            call_ensures(OrderBook::apply, (book, op), r) ==> final(book)@ == applied(
                (*book)@,
                op,
            ) && r == final(book)@.initialised,
{
}

/// Deleting one entry by [`OrderBook::apply`] leaves exactly that one out.
pub proof fn law_apply_deletes_one(side: Side, position: u32)
    ensures
        forall|book: &mut OrderBook, r: bool| #[trigger]
            call_ensures(
                OrderBook::apply,
                (book, BookOp::Delete(BookDelete::Single { side, position })),
                r,
            ) ==> match side {
                Side::Buy => final(book)@.asks == (*book)@.asks && (position < (*book)@.bids.len()
                    ==> final(book)@.bids == (*book)@.bids.take(position as int)
                    + (*book)@.bids.skip(position + 1)),
                Side::Sell => final(book)@.bids == (*book)@.bids && (position < (*book)@.asks.len()
                    ==> final(book)@.asks == (*book)@.asks.take(position as int)
                    + (*book)@.asks.skip(position + 1)),
            },
{
    assert forall|book: &mut OrderBook, r: bool| #[trigger]
        call_ensures(
            OrderBook::apply,
            (book, BookOp::Delete(BookDelete::Single { side, position })),
            r,
        ) implies match side {
        Side::Buy => final(book)@.asks == (*book)@.asks && (position < (*book)@.bids.len()
            ==> final(book)@.bids == (*book)@.bids.take(position as int) + (*book)@.bids.skip(
            position + 1,
        )),
        Side::Sell => final(book)@.bids == (*book)@.bids && (position < (*book)@.asks.len()
            ==> final(book)@.asks == (*book)@.asks.take(position as int) + (*book)@.asks.skip(
            position + 1,
        )),
    } by {
        let s = entries((*book)@, side);
        if position < s.len() {
            assert(s.remove(position as int) =~= s.take(position as int) + s.skip(position + 1));
        }
    }
}

/// An order that is deleted is found no more. Of the others, those before it on
/// its side, and all on the other side, keep their place; those behind it are one
/// further up.
pub proof fn law_places_follow_a_delete(
    m: BookModel,
    side: Side,
    position: u32,
    id: Seq<u8>,
)
    requires
        position < entries(m, side).len(),
    ensures
        ({
            let after = applied(m, BookOp::Delete(BookDelete::Single { side, position }));
            let gone = match side {
                Side::Buy => m.bids[position as int],
                Side::Sell => m.asks[position as int],
            };
            &&& gone.order_id matches Some(b) ==> !after.index.contains_key(wire::content(b))
            &&& (gone.order_id is None || wire::content(gone.order_id->0) != id) ==> (
            after.index.contains_key(id) <==> m.index.contains_key(id)) && (m.index.contains_key(id)
                ==> after.index[id] == if m.index[id].0 == side && m.index[id].1 > position {
                (side, (m.index[id].1 - 1) as nat)
            } else {
                m.index[id]
            })
        }),
{
}

/// The orders of a deleted prefix are found no more. Of the others, those on the
/// other side keep their place, and those behind the prefix move up by its length.
pub proof fn law_places_follow_a_prefix_delete(
    m: BookModel,
    side: Side,
    position: u32,
    id: Seq<u8>,
    i: int,
)
    requires
        position < entries(m, side).len(),
    ensures
        ({
            let after = applied(m, BookOp::Delete(BookDelete::PrefixInclusive { side, position }));
            let s = match side {
                Side::Buy => m.bids,
                Side::Sell => m.asks,
            };
            &&& 0 <= i <= position && s[i].order_id is Some ==> !after.index.contains_key(
                wire::content(s[i].order_id->0),
            )
            &&& after.index.contains_key(id) ==> m.index.contains_key(id) && after.index[id] == if
                m.index[id].0 == side && m.index[id].1 > position {
                (side, (m.index[id].1 - position - 1) as nat)
            } else {
                m.index[id]
            }
        }),
{
    let s = entries(m, side);
    if 0 <= i <= position && s[i].order_id is Some {
        assert(id_of(s[i]) == Some(wire::content(s[i].order_id->0)));
        assert(among(s, (position + 1) as nat, wire::content(s[i].order_id->0)));
    }
}

/// An added entry moves the orders from its position on one further down on its
/// side, and no others.
pub proof fn law_places_follow_an_add(m: BookModel, e: BookEntry, id: Seq<u8>)
    requires
        e.order_id is None || wire::content(e.order_id->0) != id,
    ensures
        ({
            let after = applied(m, BookOp::Add(e));
            &&& after.index.contains_key(id) <==> m.index.contains_key(id)
            &&& m.index.contains_key(id) && (m.index[id].0 != e.side || m.index[id].1 < e.position)
                && m.index[id].1 < entries(m, m.index[id].0).len() ==> after.index[id]
                == m.index[id]
            &&& m.index.contains_key(id) && m.index[id].0 == e.side && m.index[id].1 >= e.position
                && m.index[id].1 < entries(m, e.side).len() ==> after.index[id] == (
                e.side,
                m.index[id].1 + 1,
            )
        }),
{
}

} // verus!
