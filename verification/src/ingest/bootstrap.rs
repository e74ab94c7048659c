//! What to ask for and what to subscribe to when a session opens.
//!
//! First the brokers and the symbol lists of every market are asked for, with
//! pauses for the answers to arrive. Then every listed ticker is subscribed to,
//! in batches: quotes and trades of all, books of those that may have one.
use crate::client::commands;
use crate::client::commands::CommandSink;
use crate::client::subscription::{SubscriptionKind, SubscriptionRegistry};
use crate::ingest::catalog::Catalog;
use crate::market::engine::BookEngine;
use crate::tables;
use crate::text;
use crate::time;
use crate::time::Nanos;
use ahash::AHashSet;
use bytes::Bytes;
use vstd::prelude::*;
use vstd::utf8;

verus! {

/// How many symbol lists there are to ask for.
pub const QUERY_COUNT: usize = 13;

/// How many tickers are subscribed to between two pauses.
pub const BATCH: usize = 500;

/// How many past trades a trade subscription asks for.
pub const TRADE_HISTORY: u32 = 50;

/// A symbol list to ask for: market, asset type and subtype.
pub open spec fn query(i: int) -> (&'static str, u16, Option<u16>) {
    if i == 0 {
        ("Bovespa", 1, None)
    } else if i == 1 {
        ("Bovespa", 2, None)
    } else if i == 2 {
        ("Bovespa", 3, None)
    } else if i == 3 {
        ("Bovespa", 10, None)
    } else if i == 4 {
        ("Bovespa", 13, None)
    } else if i == 5 {
        ("Bovespa", 20, None)
    } else if i == 6 {
        ("BMF", 7, Some(130))
    } else if i == 7 {
        ("BMF", 7, Some(60))
    } else if i == 8 {
        ("BMF", 7, Some(50))
    } else if i == 9 {
        ("BMF", 7, Some(40))
    } else if i == 10 {
        ("BMF", 7, Some(30))
    } else if i == 11 {
        ("BMF", 7, Some(20))
    } else {
        ("BMF", 2, Some(150))
    }
}

/// The symbol list to ask for at index `i`.
fn query_at(i: usize) -> (r: (&'static str, u16, Option<u16>))
    ensures
        r == query(i as int),
{
    match i {
        // Shares, options, indices, odd lots, funds, corporate bonds.
        0 => ("Bovespa", 1, None),
        1 => ("Bovespa", 2, None),
        2 => ("Bovespa", 3, None),
        3 => ("Bovespa", 10, None),
        4 => ("Bovespa", 13, None),
        5 => ("Bovespa", 20, None),
        // Futures by subtype.
        6 => ("BMF", 7, Some(130)),
        7 => ("BMF", 7, Some(60)),
        8 => ("BMF", 7, Some(50)),
        9 => ("BMF", 7, Some(40)),
        10 => ("BMF", 7, Some(30)),
        11 => ("BMF", 7, Some(20)),
        // Options on futures.
        _ => ("BMF", 2, Some(150)),
    }
}

/// The command that asks for a symbol list.
pub open spec fn query_line(q: (&'static str, u16, Option<u16>)) -> Seq<char> {
    commands::line(
        match q.2 {
            Some(s) => "MQC "@ + q.0@ + " T "@ + text::decimal(q.1 as nat) + " S "@ + text::decimal(
                s as nat,
            ),
            None => "MQC "@ + q.0@ + " "@ + text::decimal(q.1 as nat),
        },
    )
}

/// The commands of discovery step `i`: the brokers first, then the symbol
/// lists.
pub open spec fn discovery_lines(i: int) -> Seq<char> {
    if i == 0 {
        commands::line("GPN "@ + "BOVESPA"@)
    } else if i <= QUERY_COUNT {
        query_line(query(i - 1))
    } else {
        Seq::empty()
    }
}

/// The pause after discovery step `i`; none once discovery is over. The last
/// step only waits for the lists to arrive.
pub open spec fn discovery_pause(i: int) -> Option<Nanos> {
    if i == 0 {
        Some((500 * time::MILLISECOND) as Nanos)
    } else if i <= QUERY_COUNT {
        Some((50 * time::MILLISECOND) as Nanos)
    } else if i == QUERY_COUNT + 1 {
        Some((20 * time::SECOND) as Nanos)
    } else {
        None
    }
}

/// Takes discovery step `i`: puts its commands into the sink and says how long
/// to pause, or that discovery is over.
pub fn discovery_step(i: usize, sink: &mut CommandSink) -> (r: Option<Nanos>)
    ensures
        final(sink)@ == old(sink)@ + discovery_lines(i as int),
        r == discovery_pause(i as int),
{
    if i == 0 {
        sink.list_brokers("BOVESPA");
        Some(500 * time::MILLISECOND)
    } else if i <= QUERY_COUNT {
        let (market, asset_type, subtype) = query_at(i - 1);
        sink.list_market(market, asset_type, subtype);
        Some(50 * time::MILLISECOND)
    } else {
        assert(sink@ + discovery_lines(i as int) =~= sink@);
        if i == QUERY_COUNT + 1 {
            Some(20 * time::SECOND)
        } else {
            None
        }
    }
}

/// What discovery has found.
#[derive(Debug)]
pub struct Universe {
    /// How many tickers are listed.
    pub total: usize,
    /// The tickers that may have a book.
    pub book_set: AHashSet<String>,
}

/// The bytes of texts.
pub open spec fn encoded(s: Set<Seq<char>>) -> Set<Seq<u8>> {
    s.map(|t: Seq<char>| utf8::encode_utf8(t))
}

/// The tickers of a set as bytes.
fn as_names(set: &AHashSet<String>) -> (r: AHashSet<Bytes>)
    ensures
        tables::members(r) == encoded(tables::texts(*set)),
{
    let list = tables::list_texts(set);
    let ghost t = text::texts_of(list@);
    let mut out = tables::new_names();
    let mut i: usize = 0;
    assert(tables::members(out) =~= encoded(t.take(0).to_set()));
    while i < list.len()
        invariant
            i <= list@.len(),
            t == text::texts_of(list@),
            tables::members(out) == encoded(t.take(i as int).to_set()),
        decreases list@.len() - i,
    {
        tables::add_name(&mut out, Bytes::copy_from_slice(list[i].as_str().as_bytes()));
        proof {
            lemma_encoded_push(t.take(i as int), t[i as int]);
            assert(t.take(i as int).push(t[i as int]) =~= t.take(i + 1));
        }
        i += 1;
    }
    assert(t.take(i as int) =~= t);
    out
}

proof fn lemma_encoded_push(s: Seq<Seq<char>>, x: Seq<char>)
    ensures
        encoded(s.push(x).to_set()) == encoded(s.to_set()).insert(utf8::encode_utf8(x)),
{
    let a = encoded(s.push(x).to_set());
    let b = encoded(s.to_set()).insert(utf8::encode_utf8(x));
    assert forall|y: Seq<u8>| a.contains(y) == b.contains(y) by {
        if a.contains(y) {
            let t = choose|t: Seq<char>|
                s.push(x).to_set().contains(t) && y == #[trigger] utf8::encode_utf8(t);
            let i = choose|i: int| 0 <= i < s.push(x).len() && s.push(x)[i] == t;
            if i < s.len() {
                assert(s[i] == t);
                assert(s.to_set().contains(t));
            }
        }
        if b.contains(y) {
            if y == utf8::encode_utf8(x) {
                assert(s.push(x)[s.len() as int] == x);
                assert(s.push(x).to_set().contains(x));
            } else {
                let t = choose|t: Seq<char>|
                    s.to_set().contains(t) && y == #[trigger] utf8::encode_utf8(t);
                let i = choose|i: int| 0 <= i < s.len() && s[i] == t;
                assert(s.push(x)[i] == t);
                assert(s.push(x).to_set().contains(t));
            }
        }
    }
    assert(a =~= b);
}

/// Reads off the catalog what there is, and restricts the book engine to the
/// tickers that may have a book. Returns the tickers to subscribe to, too.
pub fn resolve(catalog: &Catalog, book: &mut BookEngine) -> (r: (Vec<String>, Universe))
    requires
        old(book).wf(),
    ensures
        final(book).wf(),
        final(book)@ == old(book)@,
        final(book).filter() == Some(encoded(catalog@.book_universe)),
        text::texts_of(r.0@).to_set() == catalog@.symbols,
        text::texts_of(r.0@).no_duplicates(),
        r.1.total == catalog@.symbols.len(),
        tables::texts(r.1.book_set) == catalog@.book_universe,
{
    let symbols = catalog.symbols();
    proof {
        text::texts_of(symbols@).unique_seq_to_set();
    }
    let total: usize = symbols.len();
    let book_set = catalog.book_universe();
    book.set_allowed(Some(as_names(&book_set)));
    (symbols, Universe { total, book_set })
}

/// The commands that subscribe to a ticker.
pub open spec fn ticker_lines(ticker: Seq<char>, has_book: bool) -> Seq<char> {
    let quote = commands::line("SQT "@ + ticker);
    let book = if has_book {
        commands::line("BQT "@ + ticker)
    } else {
        Seq::empty()
    };
    quote + book + commands::line(
        "GQT "@ + ticker + " S "@ + text::decimal(TRADE_HISTORY as nat),
    )
}

/// The commands that subscribe to tickers, in order.
pub open spec fn all_lines(tickers: Seq<Seq<char>>, books: Set<Seq<char>>) -> Seq<char>
    decreases tickers.len(),
{
    if tickers.len() == 0 {
        Seq::empty()
    } else {
        all_lines(tickers.drop_last(), books) + ticker_lines(
            tickers.last(),
            books.contains(tickers.last()),
        )
    }
}

/// The subscriptions to tickers.
pub open spec fn all_subscriptions(tickers: Set<Seq<char>>, books: Set<Seq<char>>) -> Set<
    (SubscriptionKind, Seq<char>),
> {
    Set::new(
        |s: (SubscriptionKind, Seq<char>)|
            tickers.contains(s.1) && match s.0 {
                SubscriptionKind::Quote => true,
                SubscriptionKind::BookDetailed => books.contains(s.1),
                SubscriptionKind::BookAggregated => false,
                SubscriptionKind::Trades => true,
            },
    )
}

/// Where the batch that begins at `from` ends.
pub open spec fn batch_end(from: int, len: int) -> int {
    if from + BATCH <= len {
        from + BATCH
    } else {
        len
    }
}

/// Subscribes to the tickers of one batch, the one that begins at `from`.
/// Returns where the next begins, and the pause that a full batch calls for.
pub fn subscribe_batch(
    tickers: &Vec<String>,
    from: usize,
    book_set: &AHashSet<String>,
    sink: &mut CommandSink,
    registry: &mut SubscriptionRegistry,
) -> (r: (usize, Option<Nanos>))
    requires
        from <= tickers@.len(),
        old(registry).wf(),
    ensures
        r.0 == batch_end(from as int, tickers@.len() as int),
        r.1 == if r.0 == from + BATCH {
            Some(time::SECOND)
        } else {
            None
        },
        final(registry).wf(),
        final(sink)@ == old(sink)@ + all_lines(
            text::texts_of(tickers@).subrange(from as int, r.0 as int),
            tables::texts(*book_set),
        ),
        final(registry)@ == old(registry)@ + all_subscriptions(
            text::texts_of(tickers@).subrange(from as int, r.0 as int).to_set(),
            tables::texts(*book_set),
        ),
{
    let ghost t = text::texts_of(tickers@);
    let ghost books = tables::texts(*book_set);
    let ghost start = sink@;
    let ghost subs = registry@;
    let end: usize = if tickers.len() - from >= BATCH {
        from + BATCH
    } else {
        tickers.len()
    };
    let mut i: usize = from;
    proof {
        assert(t.subrange(from as int, from as int) =~= Seq::empty());
        assert(start + all_lines(t.subrange(from as int, from as int), books) =~= start);
        assert(subs + all_subscriptions(
            t.subrange(from as int, from as int).to_set(),
            books,
        ) =~= subs);
    }
    while i < end
        invariant
            from <= i <= end <= tickers@.len(),
            t == text::texts_of(tickers@),
            books == tables::texts(*book_set),
            registry.wf(),
            sink@ == start + all_lines(t.subrange(from as int, i as int), books),
            registry@ == subs + all_subscriptions(
                t.subrange(from as int, i as int).to_set(),
                books,
            ),
        decreases end - i,
    {
        let ghost done = t.subrange(from as int, i as int);
        let ghost next = t.subrange(from as int, i + 1);
        let ghost before = sink@;
        let ghost had = registry@;
        let ticker: &str = tickers[i].as_str();
        let has_book: bool = tables::has_text(book_set, ticker);
        sink.subscribe_quote(ticker, false);
        if has_book {
            sink.subscribe_book_detailed(ticker);
        }
        sink.subscribe_trades(ticker, Some(TRADE_HISTORY));
        let _q = registry.add(SubscriptionKind::Quote, ticker);
        if has_book {
            let _b = registry.add(SubscriptionKind::BookDetailed, ticker);
        }
        let _t = registry.add(SubscriptionKind::Trades, ticker);
        proof {
            assert(next.drop_last() =~= done);
            assert(next.last() == ticker@);
            assert(sink@ =~= before + ticker_lines(ticker@, has_book));
            assert(sink@ =~= start + all_lines(next, books));
            lemma_subscriptions_push(done, ticker@, books, had, registry@, subs);
            assert(done.push(ticker@) =~= next);
        }
        i += 1;
    }
    let pause: Option<Nanos> = if end - from == BATCH {
        Some(time::SECOND)
    } else {
        None
    };
    (end, pause)
}

proof fn lemma_subscriptions_push(
    done: Seq<Seq<char>>,
    ticker: Seq<char>,
    books: Set<Seq<char>>,
    had: Set<(SubscriptionKind, Seq<char>)>,
    now: Set<(SubscriptionKind, Seq<char>)>,
    subs: Set<(SubscriptionKind, Seq<char>)>,
)
    requires
        had == subs + all_subscriptions(done.to_set(), books),
        forall|s: (SubscriptionKind, Seq<char>)|
            now.contains(s) == (had.contains(s) || (s.1 == ticker && match s.0 {
                SubscriptionKind::Quote => true,
                SubscriptionKind::BookDetailed => books.contains(ticker),
                SubscriptionKind::BookAggregated => false,
                SubscriptionKind::Trades => true,
            })),
    ensures
        now == subs + all_subscriptions(done.push(ticker).to_set(), books),
{
    let goal = subs + all_subscriptions(done.push(ticker).to_set(), books);
    assert forall|s: (SubscriptionKind, Seq<char>)| now.contains(s) == goal.contains(s) by {
        if done.push(ticker).to_set().contains(s.1) {
            let i = choose|i: int| 0 <= i < done.push(ticker).len() && done.push(ticker)[i] == s.1;
            if i < done.len() {
                assert(done[i] == s.1);
                assert(done.to_set().contains(s.1));
            }
        }
        if done.to_set().contains(s.1) {
            let i = choose|i: int| 0 <= i < done.len() && done[i] == s.1;
            assert(done.push(ticker)[i] == s.1);
        }
        assert(done.push(ticker)[done.len() as int] == ticker);
        assert(done.push(ticker).to_set().contains(ticker));
    }
    assert(now =~= goal);
}

/// Batches add up: two runs of tickers, one after the other, give the commands and
/// the subscriptions of both at once.
pub proof fn law_batches_add_up(a: Seq<Seq<char>>, b: Seq<Seq<char>>, books: Set<Seq<char>>)
    ensures
        all_lines(a + b, books) == all_lines(a, books) + all_lines(b, books),
        all_subscriptions((a + b).to_set(), books) == all_subscriptions(a.to_set(), books)
            + all_subscriptions(b.to_set(), books),
    decreases b.len(),
{
    let whole = all_subscriptions((a + b).to_set(), books);
    let parts = all_subscriptions(a.to_set(), books) + all_subscriptions(b.to_set(), books);
    assert forall|s: (SubscriptionKind, Seq<char>)| whole.contains(s) == parts.contains(s) by {
        if (a + b).contains(s.1) {
            let i = choose|i: int| 0 <= i < (a + b).len() && (a + b)[i] == s.1;
            if i < a.len() {
                assert(a[i] == s.1);
            } else {
                assert(b[i - a.len()] == s.1);
            }
        }
        if a.contains(s.1) {
            let i = choose|i: int| 0 <= i < a.len() && a[i] == s.1;
            assert((a + b)[i] == s.1);
        }
        if b.contains(s.1) {
            let i = choose|i: int| 0 <= i < b.len() && b[i] == s.1;
            assert((a + b)[a.len() + i] == s.1);
        }
    }
    assert(whole =~= parts);
    if b.len() == 0 {
        assert(a + b =~= a);
        assert(all_lines(a, books) + all_lines(b, books) =~= all_lines(a, books));
    } else {
        law_batches_add_up(a, b.drop_last(), books);
        assert((a + b).drop_last() =~= a + b.drop_last());
        assert(all_lines(a + b, books) =~= all_lines(a, books) + all_lines(b, books));
    }
}

/// Every ticker ends up subscribed to, for quotes and trades, and for its book
/// exactly when it may have one; nothing else is.
pub proof fn law_every_ticker_is_covered(tickers: Set<Seq<char>>, books: Set<Seq<char>>, t: Seq<char>)
    ensures
        all_subscriptions(tickers, books).contains((SubscriptionKind::Quote, t))
            == tickers.contains(t),
        all_subscriptions(tickers, books).contains((SubscriptionKind::Trades, t))
            == tickers.contains(t),
        all_subscriptions(tickers, books).contains((SubscriptionKind::BookDetailed, t)) == (
        tickers.contains(t) && books.contains(t)),
        !all_subscriptions(tickers, books).contains((SubscriptionKind::BookAggregated, t)),
{
}

/// What is asked of the catalog: market, type and, on BMF, subtype.
pub proof fn law_catalog_queries()
    ensures
        QUERY_COUNT == 13,
        query(0) == ("Bovespa", 1u16, None::<u16>),
        query(1) == ("Bovespa", 2u16, None::<u16>),
        query(2) == ("Bovespa", 3u16, None::<u16>),
        query(3) == ("Bovespa", 10u16, None::<u16>),
        query(4) == ("Bovespa", 13u16, None::<u16>),
        query(5) == ("Bovespa", 20u16, None::<u16>),
        query(6) == ("BMF", 7u16, Some(130u16)),
        query(7) == ("BMF", 7u16, Some(60u16)),
        query(8) == ("BMF", 7u16, Some(50u16)),
        query(9) == ("BMF", 7u16, Some(40u16)),
        query(10) == ("BMF", 7u16, Some(30u16)),
        query(11) == ("BMF", 7u16, Some(20u16)),
        query(12) == ("BMF", 2u16, Some(150u16)),
{
}

/// How a question is spelled.
pub proof fn law_query_is_spelled(market: &'static str, asset_type: u16, subtype: u16)
    ensures
        query_line((market, asset_type, None)) == "MQC "@ + market@ + " "@ + text::decimal(
            asset_type as nat,
        ) + "\n"@,
        query_line((market, asset_type, Some(subtype))) == "MQC "@ + market@ + " T "@
            + text::decimal(asset_type as nat) + " S "@ + text::decimal(subtype as nat) + "\n"@,
{
}

/// First the brokers are asked for, then one question after the other; then the
/// answers are waited for. The pauses are half a second, a twentieth of one
/// after each question, and twenty seconds.
pub proof fn law_discovery_goes_in_order(i: int)
    requires
        0 <= i,
    ensures
        discovery_lines(0) == "GPN BOVESPA\n"@,
        discovery_pause(0) == Some(500_000_000u128),
        1 <= i <= 13 ==> discovery_lines(i) == query_line(query(i - 1)) && discovery_pause(i)
            == Some(50_000_000u128),
        i >= 14 ==> discovery_lines(i).len() == 0,
        discovery_pause(14) == Some(20_000_000_000u128),
        i > 14 ==> discovery_pause(i) is None,
{
    reveal_strlit("GPN ");
    reveal_strlit("BOVESPA");
    reveal_strlit("\n");
    reveal_strlit("GPN BOVESPA\n");
    assert("GPN "@ + "BOVESPA"@ + "\n"@ =~= "GPN BOVESPA\n"@);
}

/// Of each ticker the quote, the book, where it has one, and the last fifty
/// trades are asked for, in this order.
pub proof fn law_ticker_is_asked_for(ticker: Seq<char>)
    ensures
        ticker_lines(ticker, false) == ("SQT "@ + ticker + "\n"@) + ("GQT "@ + ticker + " S 50\n"@),
        ticker_lines(ticker, true) == ("SQT "@ + ticker + "\n"@) + ("BQT "@ + ticker + "\n"@) + (
        "GQT "@ + ticker + " S 50\n"@),
{
    reveal_strlit(" S ");
    reveal_strlit("\n");
    reveal_strlit(" S 50\n");
    text::law_decimal_has_no_leading_zero(5, 0);
    text::law_decimal_has_no_leading_zero(0, 5);
    assert(text::decimal(50) =~= seq!['5', '0']);
    assert("GQT "@ + ticker + " S "@ + text::decimal(50) + "\n"@ =~= "GQT "@ + ticker
        + " S 50\n"@);
    assert(ticker_lines(ticker, false) =~= ("SQT "@ + ticker + "\n"@) + ("GQT "@ + ticker
        + " S 50\n"@));
}

/// Tickers are asked for one after the other, at most five hundred at a time.
pub proof fn law_tickers_are_asked_for_in_turn(
    tickers: Seq<Seq<char>>,
    ticker: Seq<char>,
    books: Set<Seq<char>>,
    from: int,
    len: int,
)
    ensures
        all_lines(Seq::empty(), books).len() == 0,
        all_lines(tickers.push(ticker), books) == all_lines(tickers, books) + ticker_lines(
            ticker,
            books.contains(ticker),
        ),
        from + 500 <= len ==> batch_end(from, len) == from + 500,
        from + 500 > len ==> batch_end(from, len) == len,
{
    assert(tickers.push(ticker).drop_last() =~= tickers);
}

/// A full batch of five hundred is followed by a pause of one second, and the
/// last one, which is shorter, by none.
pub proof fn law_pause_behind_a_full_batch(
    tickers: Vec<String>,
    from: usize,
    books: AHashSet<String>,
)
    requires
        from <= tickers@.len(),
    ensures
        forall|sink: &mut CommandSink, registry: &mut SubscriptionRegistry, r: (
            usize,
            Option<Nanos>,
        )| #[trigger]
            call_ensures(subscribe_batch, (&tickers, from, &books, sink, registry), r) ==> {
                &&& from + 500 <= tickers@.len() ==> r == (
                    (from + 500) as usize,
                    Some(1_000_000_000u128),
                )
                &&& from + 500 > tickers@.len() ==> r == (
                    tickers@.len() as usize,
                    None::<Nanos>,
                )
            },
{
}

/// Each step of the discovery writes its lines behind those that wait, and tells
/// its pause.
pub proof fn law_discovery_step(i: usize)
    ensures
        forall|sink: &mut CommandSink, r: Option<Nanos>| #[trigger]
            call_ensures(discovery_step, (i, sink), r) ==> final(sink)@ == (*sink)@
                + discovery_lines(i as int) && r == discovery_pause(i as int),
{
}

/// What is subscribed to is what the catalog lists, and books are allowed of the
/// tickers that have them, by their bytes.
pub proof fn law_catalog_decides_what_is_subscribed_to(catalog: Catalog, t: Seq<char>)
    ensures
        forall|book: &mut BookEngine, r: (Vec<String>, Universe)| #[trigger]
            call_ensures(resolve, (&catalog, book), r) ==> {
                &&& text::texts_of(r.0@).to_set() == catalog@.symbols
                &&& tables::texts(r.1.book_set) == catalog@.book_universe
                &&& r.1.total == catalog@.symbols.len()
                &&& final(book)@ == (*book)@
                &&& final(book).filter() is Some
                &&& catalog@.book_universe.contains(t) ==> final(book).filter()->0.contains(
                    utf8::encode_utf8(t),
                )
            },
{
    assert forall|book: &mut BookEngine, r: (Vec<String>, Universe)| #[trigger]
        call_ensures(resolve, (&catalog, book), r) && catalog@.book_universe.contains(
            t,
        ) implies final(book).filter()->0.contains(utf8::encode_utf8(t)) by {
        assert(encoded(catalog@.book_universe).contains(utf8::encode_utf8(t)));
    }
}

} // verus!
