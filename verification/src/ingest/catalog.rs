//! Symbols and brokers, as the feed lists them.
use crate::tables;
use crate::text;
use ahash::{AHashMap, AHashSet};
use vstd::prelude::*;

verus! {

/// The broker of each id in a table.
pub uninterp spec fn entries(m: AHashMap<String, BrokerInfo>) -> Map<Seq<char>, BrokerInfo>;

/// No brokers.
pub open spec fn no_entries() -> Map<Seq<char>, BrokerInfo> {
    Map::empty()
}

/// `AHashMap::new`: an empty table.
#[verifier::external_body]
fn new_entries() -> (m: AHashMap<String, BrokerInfo>)
    ensures
        entries(m) == no_entries(),
{
    AHashMap::new()
}

/// `AHashMap::insert`: the broker of an id, whatever it was before.
#[verifier::external_body]
fn set_entry(m: &mut AHashMap<String, BrokerInfo>, id: String, info: BrokerInfo)
    ensures
        entries(*final(m)) == entries(*old(m)).insert(id@, info),
{
    m.insert(id, info);
}

/// `AHashMap::get`: the broker of an id.
#[verifier::external_body]
fn find_entry<'a>(m: &'a AHashMap<String, BrokerInfo>, id: &str) -> (r: Option<&'a BrokerInfo>)
    ensures
        match r {
            Some(info) => entries(*m).contains_key(id@) && *info == entries(*m)[id@],
            None => !entries(*m).contains_key(id@),
        },
{
    m.get(id)
}

/// A broker.
#[derive(Debug)]
pub struct BrokerInfo {
    pub code: String,
    pub name: String,
    pub active: bool,
}

impl Clone for BrokerInfo {
    fn clone(&self) -> (r: Self)
        ensures
            r == *self,
    {
        BrokerInfo { code: self.code.clone(), name: self.name.clone(), active: self.active }
    }
}

/// Symbols and brokers, as the feed lists them.
#[derive(Debug)]
pub struct Catalog {
    symbols: AHashSet<String>,
    book_universe: AHashSet<String>,
    brokers: AHashMap<String, BrokerInfo>,
}

/// The catalog as mathematics sees it.
pub struct CatalogModel {
    /// Every listed ticker.
    pub symbols: Set<Seq<char>>,
    /// The tickers that may have a book.
    pub book_universe: Set<Seq<char>>,
    /// Broker of each id.
    pub brokers: Map<Seq<char>, BrokerInfo>,
}

impl View for Catalog {
    type V = CatalogModel;

    closed spec fn view(&self) -> CatalogModel {
        CatalogModel {
            symbols: tables::texts(self.symbols),
            book_universe: tables::texts(self.book_universe),
            brokers: entries(self.brokers),
        }
    }
}

/// A catalog without anything in it.
pub open spec fn nothing() -> CatalogModel {
    CatalogModel { symbols: Set::empty(), book_universe: Set::empty(), brokers: Map::empty() }
}

/// The market whose tickers may have a book, in any case.
pub open spec fn has_books(market: Seq<char>) -> bool {
    text::same_but_case(vstd::utf8::encode_utf8(market), text::bytes_of("BOVESPA"))
}

/// The catalog after a symbol was listed.
pub open spec fn with_symbol(c: CatalogModel, market: Seq<char>, ticker: Seq<char>) -> CatalogModel {
    CatalogModel {
        symbols: c.symbols.insert(ticker),
        book_universe: if has_books(market) {
            c.book_universe.insert(ticker)
        } else {
            c.book_universe
        },
        brokers: c.brokers,
    }
}

/// The catalog after a broker was listed.
pub open spec fn with_broker(c: CatalogModel, id: Seq<char>, info: BrokerInfo) -> CatalogModel {
    CatalogModel { brokers: c.brokers.insert(id, info), ..c }
}

impl Catalog {
    /// A catalog without anything in it.
    pub fn new() -> (r: Self)
        ensures
            r@ == nothing(),
    {
        Catalog { symbols: tables::new_texts(), book_universe: tables::new_texts(), brokers: new_entries() }
    }

    /// Every listed ticker once, in no set order.
    pub fn symbols(&self) -> (r: Vec<String>)
        ensures
            text::texts_of(r@).to_set() == self@.symbols,
            text::texts_of(r@).no_duplicates(),
    {
        tables::list_texts(&self.symbols)
    }

    /// The tickers that may have a book.
    pub fn book_universe(&self) -> (r: AHashSet<String>)
        ensures
            tables::texts(r) == self@.book_universe,
    {
        tables::copy_texts(&self.book_universe)
    }

    /// Lists a symbol. Every Bovespa ticker may have a book: the list does not
    /// say which are shares and options, the ones that do.
    pub fn insert_symbol(&mut self, market: &str, ticker: &str)
        ensures
            final(self)@ == with_symbol(old(self)@, market@, ticker@),
    {
        if text::eq_but_case(market.as_bytes(), "BOVESPA".as_bytes()) {
            tables::add_text(&mut self.book_universe, ticker.to_owned());
        }
        tables::add_text(&mut self.symbols, ticker.to_owned());
    }

    /// Lists a broker.
    pub fn insert_broker(&mut self, cedro_id: &str, info: BrokerInfo)
        ensures
            final(self)@ == with_broker(old(self)@, cedro_id@, info),
    {
        set_entry(&mut self.brokers, cedro_id.to_owned(), info);
    }

    /// The broker of an id.
    pub fn broker(&self, cedro_id: &str) -> (r: Option<BrokerInfo>)
        ensures
            match r {
                Some(info) => self@.brokers.contains_key(cedro_id@) && info
                    == self@.brokers[cedro_id@],
                None => !self@.brokers.contains_key(cedro_id@),
            },
    {
        match find_entry(&self.brokers, cedro_id) {
            Some(info) => Some(info.clone()),
            None => None,
        }
    }
}

impl Default for Catalog {
    fn default() -> (r: Self)
        ensures
            r@ == nothing(),
    {
        Catalog::new()
    }
}

/// Books are only kept of listed symbols: listing keeps the book universe
/// inside the symbols.
pub proof fn law_books_are_of_symbols(c: CatalogModel, market: Seq<char>, ticker: Seq<char>)
    requires
        c.book_universe.subset_of(c.symbols),
    ensures
        with_symbol(c, market, ticker).book_universe.subset_of(
            with_symbol(c, market, ticker).symbols,
        ),
{
}

/// Which markets have books: `BOVESPA`, in capitals or not.
pub proof fn law_one_market_has_books(market: Seq<char>)
    ensures
        has_books("BOVESPA"@),
        has_books("Bovespa"@),
        has_books("bovespa"@),
        !has_books("BMF"@),
        has_books(market) ==> vstd::utf8::encode_utf8(market).len() == 7,
{
    reveal_strlit("BOVESPA");
    reveal_strlit("Bovespa");
    reveal_strlit("bovespa");
    reveal_strlit("BMF");
    text::lemma_ascii_bytes("BOVESPA");
    text::lemma_ascii_bytes("Bovespa");
    text::lemma_ascii_bytes("bovespa");
    text::lemma_ascii_bytes("BMF");
    let w = text::bytes_of("BOVESPA");
    assert(w[0] == 66 && w[1] == 79 && w[2] == 86 && w[3] == 69 && w[4] == 83 && w[5] == 80 && w[6]
        == 65);
    let x = text::bytes_of("Bovespa");
    assert(x[0] == 66 && x[1] == 111 && x[2] == 118 && x[3] == 101 && x[4] == 115 && x[5] == 112
        && x[6] == 97);
    let y = text::bytes_of("bovespa");
    assert(y[0] == 98 && y[1] == 111 && y[2] == 118 && y[3] == 101 && y[4] == 115 && y[5] == 112
        && y[6] == 97);
}

/// A symbol is added to the catalog and, where its market has books, to those
/// with books. All other symbols, and the brokers, stay.
pub proof fn law_symbol_is_added(
    c: CatalogModel,
    market: Seq<char>,
    ticker: Seq<char>,
    other: Seq<char>,
)
    ensures
        with_symbol(c, market, ticker).symbols.contains(ticker),
        has_books(market) ==> with_symbol(c, market, ticker).book_universe.contains(ticker),
        !has_books(market) ==> with_symbol(c, market, ticker).book_universe == c.book_universe,
        with_symbol(c, market, ticker).brokers == c.brokers,
        other != ticker ==> with_symbol(c, market, ticker).symbols.contains(other)
            == c.symbols.contains(other),
        other != ticker ==> with_symbol(c, market, ticker).book_universe.contains(other)
            == c.book_universe.contains(other),
{
}

/// A broker is found under its id. All other brokers, and the symbols, stay.
pub proof fn law_broker_is_added(
    c: CatalogModel,
    id: Seq<char>,
    info: BrokerInfo,
    other: Seq<char>,
)
    ensures
        with_broker(c, id, info).brokers.contains_key(id),
        with_broker(c, id, info).brokers[id] == info,
        with_broker(c, id, info).symbols == c.symbols,
        with_broker(c, id, info).book_universe == c.book_universe,
        other != id ==> with_broker(c, id, info).brokers.contains_key(other)
            == c.brokers.contains_key(other),
        other != id && c.brokers.contains_key(other) ==> with_broker(c, id, info).brokers[other]
            == c.brokers[other],
        !nothing().symbols.contains(other),
        !nothing().book_universe.contains(other),
        !nothing().brokers.contains_key(other),
{
}

/// Listing a symbol or a broker changes the catalog as the laws above say.
pub proof fn law_listing_changes_the_catalog(market: &str, ticker: &str, id: &str, info: BrokerInfo)
    ensures
        forall|c: &mut Catalog| #[trigger]
            call_ensures(Catalog::insert_symbol, (c, market, ticker), ()) ==> final(c)@.symbols
                == (*c)@.symbols.insert(ticker@) && final(c)@.brokers == (*c)@.brokers && (
            has_books(market@) ==> final(c)@.book_universe == (*c)@.book_universe.insert(ticker@))
                && (!has_books(market@) ==> final(c)@.book_universe == (*c)@.book_universe),
        forall|c: &mut Catalog| #[trigger]
            call_ensures(Catalog::insert_broker, (c, id, info), ()) ==> final(c)@.brokers
                == (*c)@.brokers.insert(id@, info) && final(c)@.symbols == (*c)@.symbols
                && final(c)@.book_universe == (*c)@.book_universe,
{
}

} // verus!
