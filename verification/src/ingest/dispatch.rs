//! What each message does.
//!
//! A message updates an engine or the catalog, and may call for a publication
//! and for a trade to be stored. [`dispatch`] does the first and returns the
//! rest for whoever holds the connections.
use crate::decimal::Decimal;
use crate::fanout::types::{Kind, PublishKey};
use crate::ingest::catalog;
use crate::ingest::catalog::{BrokerInfo, Catalog, CatalogModel};
use crate::market::engine;
use crate::market::engine::BookEngine;
use crate::market::order_book;
use crate::market::order_book::BookModel;
use crate::market::quote;
use crate::market::quote::{QuoteEngine, QuoteModel};
use crate::market::trade;
use crate::market::trade::{TradeBuffer, TradeRecord};
use crate::protocol::enums::{TradeAggressor, TradeCondition};
use crate::protocol::frame::FrameKind;
use crate::protocol::parser;
use crate::protocol::parser::{parse_frame, ParseError};
use crate::protocol::types::{
    BookOp, GpnItem, MqcItem, ProtocolMessage, QuoteDiff, Trade, TradeOperation,
};
use crate::text;
use crate::wire;
use bytes::Bytes;
use vstd::prelude::*;
use vstd::utf8;

verus! {

/// The engines of all tickers.
#[derive(Debug)]
pub struct Engine {
    pub quote: QuoteEngine,
    pub book: BookEngine,
    pub trades: TradeBuffer,
}

impl Engine {
    /// The engines are in order.
    pub open spec fn wf(&self) -> bool {
        self.book.wf() && self.trades.wf()
    }

    /// Engines without anything in them.
    pub fn new(n_book_shards: usize, trades_per_ticker: usize) -> (r: Self)
        ensures
            r.wf(),
            r.quote@ == Map::<Seq<u8>, QuoteModel>::empty(),
            r.book@ == Map::<Seq<u8>, BookModel>::empty(),
            r.book.filter() is None,
            r.book.shard_count() == if n_book_shards == 0 {
                8
            } else {
                n_book_shards as nat
            },
            r.trades@ == Map::<Seq<u8>, Seq<TradeRecord>>::empty(),
            r.trades.cap() == if trades_per_ticker == 0 {
                1
            } else {
                trades_per_ticker as nat
            },
    {
        Engine {
            quote: QuoteEngine::new(),
            book: BookEngine::new(n_book_shards),
            trades: TradeBuffer::new(trades_per_ticker),
        }
    }
}

/// What a message calls for beyond the engines and the catalog.
#[derive(Debug)]
pub struct Effects {
    /// Publish this payload under this key.
    pub publish: Option<(PublishKey, Bytes)>,
    /// Store this trade of this ticker.
    pub store: Option<(Bytes, Trade)>,
}

/// Calls for nothing.
pub open spec fn no_effects(e: Effects) -> bool {
    e.publish is None && e.store is None
}

/// Calls for this publication.
pub open spec fn publishes(e: Effects, kind: Kind, ticker: Seq<u8>, payload: &str) -> bool {
    e.publish matches Some((key, p)) && key.kind == kind && wire::content(key.ticker) == ticker
        && wire::content(p) == text::bytes_of(payload)
}

/// What a quote frame does.
pub open spec fn does_quote(
    before: Engine,
    after: Engine,
    e: Effects,
    ticker: Seq<u8>,
    model: QuoteModel,
) -> bool {
    &&& after.quote@ == before.quote@.insert(ticker, model)
    &&& after.book == before.book
    &&& after.trades == before.trades
    &&& publishes(e, Kind::Quote, ticker, "q")
    &&& e.store is None
}

/// What a trade operation does.
pub open spec fn does_trade(
    before: Engine,
    after: Engine,
    e: Effects,
    ticker: Seq<u8>,
    op: TradeOperation,
) -> bool {
    &&& after.quote == before.quote
    &&& after.book == before.book
    &&& after.trades.cap() == before.trades.cap()
    &&& match op {
        TradeOperation::Add(t) => {
            &&& exists|r: TradeRecord| #[trigger]
                trade::records(r, t) && after.trades@ == before.trades@.insert(
                    ticker,
                    trade::extended(
                        trade::tape_of(before.trades@, ticker),
                        before.trades.cap(),
                        r,
                    ),
                )
            &&& publishes(e, Kind::Trade, ticker, "t")
            &&& e.store matches Some((tk, stored))
            &&& wire::content(tk) == ticker
            &&& stored == t
        },
        TradeOperation::Delete { trade_id } => {
            let tape = trade::tape_of(before.trades@, ticker);
            let at = trade::first_with(tape, wire::content(trade_id));
            &&& after.trades@ == if at < tape.len() {
                before.trades@.insert(ticker, tape.remove(at as int))
            } else {
                before.trades@
            }
            &&& no_effects(e)
        },
        TradeOperation::RemoveAll => {
            &&& after.trades@ == if before.trades@.contains_key(ticker) {
                before.trades@.insert(ticker, Seq::empty())
            } else {
                before.trades@
            }
            &&& no_effects(e)
        },
        _ => after.trades == before.trades && no_effects(e),
    }
}

/// The catalog after an item of a symbol list: both names must be text.
pub open spec fn lists_symbol(c: CatalogModel, item: MqcItem) -> CatalogModel {
    match item {
        MqcItem::Symbol { market, ticker } => if utf8::valid_utf8(wire::content(market))
            && utf8::valid_utf8(wire::content(ticker)) {
            catalog::with_symbol(
                c,
                utf8::decode_utf8(wire::content(market)),
                utf8::decode_utf8(wire::content(ticker)),
            )
        } else {
            c
        },
        MqcItem::End { market } => c,
    }
}

/// `info` is what an item of the broker list says.
pub open spec fn is_broker(item: GpnItem, info: BrokerInfo) -> bool {
    &&& info.code@ == utf8::decode_utf8(wire::content(item.code))
    &&& info.name@ == utf8::decode_utf8(wire::content(item.name))
    &&& info.active == item.active
}

/// What an item of the broker list does: all its names must be text.
pub open spec fn lists_broker(before: CatalogModel, after: CatalogModel, item: GpnItem) -> bool {
    if utf8::valid_utf8(wire::content(item.cedro_id)) && utf8::valid_utf8(wire::content(item.code))
        && utf8::valid_utf8(wire::content(item.name)) {
        exists|info: BrokerInfo| #[trigger]
            is_broker(item, info) && after == catalog::with_broker(
                before,
                utf8::decode_utf8(wire::content(item.cedro_id)),
                info,
            )
    } else {
        after == before
    }
}

/// What a message does to engines and catalog, and what else it calls for.
pub open spec fn does(
    msg: ProtocolMessage,
    before: Engine,
    after: Engine,
    listed: CatalogModel,
    relisted: CatalogModel,
    e: Effects,
) -> bool {
    match msg {
        ProtocolMessage::Quote { ticker, time_hhmmss, diff } => {
            let t = wire::content(ticker);
            relisted == listed && does_quote(
                before,
                after,
                e,
                t,
                quote::updated(quote::quote_of(before.quote@, t), time_hhmmss, diff@),
            )
        },
        ProtocolMessage::Book { ticker, op } => {
            let t = wire::content(ticker);
            &&& relisted == listed
            &&& after.quote == before.quote
            &&& after.trades == before.trades
            &&& after.book@ == engine::applied_to(before.book@, before.book.filter(), t, op)
            &&& after.book.filter() == before.book.filter()
            &&& after.book.shard_count() == before.book.shard_count()
            &&& publishes(e, Kind::Book, t, "b")
            &&& e.store is None
        },
        ProtocolMessage::Trade { ticker, op } => relisted == listed && does_trade(
            before,
            after,
            e,
            wire::content(ticker),
            op,
        ),
        ProtocolMessage::MqcItem(item) => after == before && no_effects(e) && relisted
            == lists_symbol(listed, item),
        ProtocolMessage::GpnItem(item) => after == before && no_effects(e) && lists_broker(
            listed,
            relisted,
            item,
        ),
        _ => after == before && relisted == listed && no_effects(e),
    }
}

/// Lets a message do its work.
pub fn dispatch(engine: &mut Engine, catalog: &mut Catalog, msg: ProtocolMessage) -> (r: Effects)
    requires
        old(engine).wf(),
    ensures
        final(engine).wf(),
        does(msg, *old(engine), *final(engine), old(catalog)@, final(catalog)@, r),
{
    match msg {
        ProtocolMessage::Quote { ticker, time_hhmmss, diff } => {
            let _fields = engine.quote.apply(ticker.clone(), time_hhmmss, diff);
            Effects {
                publish: Some((PublishKey::new(Kind::Quote, ticker), payload("q"))),
                store: None,
            }
        },
        ProtocolMessage::Book { ticker, op } => {
            let _observable = engine.book.apply(&ticker, op);
            Effects {
                publish: Some((PublishKey::new(Kind::Book, ticker), payload("b"))),
                store: None,
            }
        },
        ProtocolMessage::Trade { ticker, op } => dispatch_trade(engine, ticker, op),
        ProtocolMessage::MqcItem(item) => {
            list_symbol(catalog, item);
            Effects { publish: None, store: None }
        },
        ProtocolMessage::GpnItem(item) => {
            list_broker(catalog, item);
            Effects { publish: None, store: None }
        },
        _ => Effects { publish: None, store: None },
    }
}

/// A fixed payload.
fn payload(s: &str) -> (r: Bytes)
    ensures
        wire::content(r) == text::bytes_of(s),
{
    Bytes::copy_from_slice(s.as_bytes())
}

/// Lets a trade operation do its work.
fn dispatch_trade(engine: &mut Engine, ticker: Bytes, op: TradeOperation) -> (r: Effects)
    requires
        old(engine).wf(),
    ensures
        final(engine).wf(),
        does_trade(*old(engine), *final(engine), r, wire::content(ticker), op),
{
    match op {
        TradeOperation::Add(t) => {
            let record = TradeRecord::of(&t);
            let ghost witness = record;
            engine.trades.push(ticker.clone(), record);
            assert(trade::records(witness, t));
            Effects {
                publish: Some((PublishKey::new(Kind::Trade, ticker.clone()), payload("t"))),
                store: Some((ticker, t)),
            }
        },
        TradeOperation::Delete { trade_id } => {
            let _found = engine.trades.remove(wire::as_slice(&ticker), wire::as_slice(&trade_id));
            Effects { publish: None, store: None }
        },
        TradeOperation::RemoveAll => {
            engine.trades.clear(wire::as_slice(&ticker));
            Effects { publish: None, store: None }
        },
        _ => Effects { publish: None, store: None },
    }
}

/// Lists a symbol.
fn list_symbol(catalog: &mut Catalog, item: MqcItem)
    ensures
        final(catalog)@ == lists_symbol(old(catalog)@, item),
{
    if let MqcItem::Symbol { market, ticker } = item {
        if let Some(m) = text::to_str(wire::as_slice(&market)) {
            if let Some(t) = text::to_str(wire::as_slice(&ticker)) {
                proof {
                    utf8::encode_utf8_decode_utf8(m@);
                    utf8::encode_utf8_decode_utf8(t@);
                }
                catalog.insert_symbol(m, t);
            }
        }
    }
}

/// Lists a broker.
fn list_broker(catalog: &mut Catalog, item: GpnItem)
    ensures
        lists_broker(old(catalog)@, final(catalog)@, item),
{
    if let Some(id) = text::to_str(wire::as_slice(&item.cedro_id)) {
        if let Some(code) = text::to_str(wire::as_slice(&item.code)) {
            if let Some(name) = text::to_str(wire::as_slice(&item.name)) {
                proof {
                    utf8::encode_utf8_decode_utf8(id@);
                    utf8::encode_utf8_decode_utf8(code@);
                    utf8::encode_utf8_decode_utf8(name@);
                }
                let info = BrokerInfo {
                    code: code.to_owned(),
                    name: name.to_owned(),
                    active: item.active,
                };
                assert(is_broker(item, info));
                catalog.insert_broker(id, info);
            }
        }
    }
}

/// Parses a frame and lets its message do its work. A frame that does not parse
/// does nothing.
pub fn process_frame(
    engine: &mut Engine,
    catalog: &mut Catalog,
    kind: FrameKind,
    frame: Bytes,
) -> (r: Result<Effects, ParseError>)
    requires
        old(engine).wf(),
    ensures
        final(engine).wf(),
        match r {
            Ok(e) => exists|msg: ProtocolMessage| #[trigger]
                parser::says(kind, wire::content(frame), msg) && does(
                    msg,
                    *old(engine),
                    *final(engine),
                    old(catalog)@,
                    final(catalog)@,
                    e,
                ),
            Err(e) => {
                &&& parser::is_wrong(kind, wire::content(frame), e)
                &&& *final(engine) == *old(engine)
                &&& final(catalog)@ == old(catalog)@
            },
        },
{
    match parse_frame(kind, frame) {
        Ok(msg) => Ok(dispatch(engine, catalog, msg)),
        Err(e) => Err(e),
    }
}

/// A trade as it is stored.
#[derive(Debug)]
pub struct StagedTrade {
    pub asset_id: i32,
    pub price: Decimal,
    pub amount: i64,
    pub buyer_id: Option<i32>,
    pub seller_id: Option<i32>,
    /// One for the buyer, two for the seller.
    pub aggressor_side: Option<i16>,
    pub trade_id: Option<String>,
    pub is_direct: bool,
}

/// A broker id that fits, or nothing.
pub open spec fn broker_id(id: u32) -> Option<i32> {
    if id <= i32::MAX {
        Some(id as i32)
    } else {
        None
    }
}

/// `s` is what is stored of a trade.
pub open spec fn stages(t: Trade, asset_id: i32, s: StagedTrade) -> bool {
    &&& s.asset_id == asset_id
    &&& s.price@ == t.price@
    &&& s.amount == if t.quantity <= i64::MAX {
        t.quantity as i64
    } else {
        i64::MAX
    }
    &&& s.buyer_id == broker_id(t.broker_buy_id)
    &&& s.seller_id == broker_id(t.broker_sell_id)
    &&& s.aggressor_side == match t.aggressor {
        TradeAggressor::Buyer => Some(1i16),
        TradeAggressor::Seller => Some(2i16),
        _ => None,
    }
    &&& match s.trade_id {
        Some(id) => utf8::valid_utf8(wire::content(t.trade_id)) && id@ == utf8::decode_utf8(
            wire::content(t.trade_id),
        ),
        None => !utf8::valid_utf8(wire::content(t.trade_id)),
    }
    &&& s.is_direct == (t.condition == TradeCondition::Direct)
}

/// What is stored of a trade, when its ticker is text and has an asset id.
pub fn build_staged_trade(ticker: &Bytes, t: &Trade, asset_id: Option<i32>) -> (r: Option<
    StagedTrade,
>)
    ensures
        match r {
            Some(s) => {
                &&& utf8::valid_utf8(wire::content(*ticker))
                &&& asset_id matches Some(id)
                &&& stages(*t, id, s)
            },
            None => !utf8::valid_utf8(wire::content(*ticker)) || asset_id is None,
        },
{
    if text::to_str(wire::as_slice(ticker)).is_none() {
        return None;
    }
    match asset_id {
        None => None,
        Some(asset_id) => {
            let amount: i64 = if t.quantity <= i64::MAX as u64 {
                t.quantity as i64
            } else {
                i64::MAX
            };
            let aggressor_side: Option<i16> = match t.aggressor {
                TradeAggressor::Buyer => Some(1),
                TradeAggressor::Seller => Some(2),
                _ => None,
            };
            let trade_id: Option<String> = match text::to_str(wire::as_slice(&t.trade_id)) {
                Some(s) => {
                    proof {
                        utf8::encode_utf8_decode_utf8(s@);
                    }
                    Some(s.to_owned())
                },
                None => None,
            };
            let is_direct: bool = match t.condition {
                TradeCondition::Direct => true,
                _ => false,
            };
            Some(
                StagedTrade {
                    asset_id,
                    price: t.price.clone(),
                    amount,
                    buyer_id: narrow(t.broker_buy_id),
                    seller_id: narrow(t.broker_sell_id),
                    aggressor_side,
                    trade_id,
                    is_direct,
                },
            )
        },
    }
}

/// A broker id that fits, or nothing.
fn narrow(id: u32) -> (r: Option<i32>)
    ensures
        r == broker_id(id),
{
    if id <= i32::MAX as u32 {
        Some(id as i32)
    } else {
        None
    }
}

/// Only new trades are stored. Quotes, books and new trades are published, each
/// under its own kind, and nothing else is.
pub proof fn law_effects_match_messages(
    msg: ProtocolMessage,
    before: Engine,
    after: Engine,
    listed: CatalogModel,
    relisted: CatalogModel,
    e: Effects,
)
    requires
        does(msg, before, after, listed, relisted, e),
    ensures
        e.store is Some <==> (msg matches ProtocolMessage::Trade { ticker, op } && op is Add),
        e.publish is Some <==> (msg is Quote || msg is Book || (
        msg matches ProtocolMessage::Trade { ticker, op } && op is Add)),
        e.publish matches Some((key, p)) ==> key.kind == match msg {
            ProtocolMessage::Quote { .. } => Kind::Quote,
            ProtocolMessage::Book { .. } => Kind::Book,
            _ => Kind::Trade,
        },
{
}

/// A message of one kind leaves the other engines, and but for lists the
/// catalog, as they are.
pub proof fn law_messages_stay_in_their_lane(
    msg: ProtocolMessage,
    before: Engine,
    after: Engine,
    listed: CatalogModel,
    relisted: CatalogModel,
    e: Effects,
)
    requires
        does(msg, before, after, listed, relisted, e),
    ensures
        !(msg is Quote) ==> after.quote == before.quote,
        !(msg is Book) ==> after.book == before.book,
        !(msg is Trade) ==> after.trades == before.trades,
        !(msg is MqcItem) && !(msg is GpnItem) ==> relisted == listed,
{
}

/// A quote frame changes the quote of its ticker and announces it.
pub proof fn law_quote_is_applied_and_announced(
    ticker: Bytes,
    time_hhmmss: u32,
    diff: QuoteDiff,
    before: Engine,
    after: Engine,
    c: CatalogModel,
    d: CatalogModel,
    e: Effects,
)
    requires
        does(ProtocolMessage::Quote { ticker, time_hhmmss, diff }, before, after, c, d, e),
    ensures
        after.quote@.contains_key(wire::content(ticker)),
        after.quote@[wire::content(ticker)].time_hhmmss == time_hhmmss,
        diff@.len() > 0 ==> after.quote@[wire::content(ticker)].fields.contains_key(
            diff@.last().0.0,
        ) && after.quote@[wire::content(ticker)].fields[diff@.last().0.0] == diff@.last().1,
        e.publish matches Some((key, payload)) && key.kind == Kind::Quote && wire::content(
            key.ticker,
        ) == wire::content(ticker) && wire::content(payload) == seq![113u8],
{
    reveal_strlit("q");
    text::lemma_one_byte("q", 'q');
}

/// A book frame changes the book of its ticker and announces it.
pub proof fn law_book_is_applied_and_announced(
    ticker: Bytes,
    op: BookOp,
    before: Engine,
    after: Engine,
    c: CatalogModel,
    d: CatalogModel,
    e: Effects,
)
    requires
        does(ProtocolMessage::Book { ticker, op }, before, after, c, d, e),
    ensures
        before.book.filter() is None && before.book@.contains_key(wire::content(ticker))
            ==> after.book@[wire::content(ticker)] == order_book::applied(
            before.book@[wire::content(ticker)],
            op,
        ),
        e.publish matches Some((key, payload)) && key.kind == Kind::Book && wire::content(
            key.ticker,
        ) == wire::content(ticker) && wire::content(payload) == seq![98u8],
{
    reveal_strlit("b");
    text::lemma_one_byte("b", 'b');
}

/// An added trade is the last on the tape of its ticker, field by field; it is
/// announced, and handed on to be stored as it is.
pub proof fn law_trade_is_taped_announced_and_stored(
    ticker: Bytes,
    t: Trade,
    before: Engine,
    after: Engine,
    c: CatalogModel,
    d: CatalogModel,
    e: Effects,
)
    requires
        does(
            ProtocolMessage::Trade { ticker, op: TradeOperation::Add(t) },
            before,
            after,
            c,
            d,
            e,
        ),
    ensures
        after.trades@.contains_key(wire::content(ticker)),
        after.trades@[wire::content(ticker)].len() > 0,
        ({
            let r = after.trades@[wire::content(ticker)].last();
            r.time_hhmmss == t.time_hhmmss && r.price@ == t.price@ && r.quantity == t.quantity
                && wire::content(r.trade_id) == wire::content(t.trade_id) && r.broker_buy_id
                == t.broker_buy_id && r.broker_sell_id == t.broker_sell_id && r.condition
                == t.condition && r.aggressor == t.aggressor
        }),
        e.publish matches Some((key, payload)) && key.kind == Kind::Trade && wire::content(
            key.ticker,
        ) == wire::content(ticker) && wire::content(payload) == seq![116u8],
        e.store matches Some((name, stored)) && wire::content(name) == wire::content(ticker)
            && stored == t,
{
    reveal_strlit("t");
    text::lemma_one_byte("t", 't');
    let name = wire::content(ticker);
    let r = choose|r: TradeRecord| #[trigger]
        trade::records(r, t) && after.trades@ == before.trades@.insert(
            name,
            trade::extended(trade::tape_of(before.trades@, name), before.trades.cap(), r),
        );
    assert(after.trades@[name].last() == r);
}

/// A trade that is taken back leaves the tape; all others keep their order. A
/// ticker's tape is emptied when all its trades are removed, and the ends of
/// snapshots change nothing.
pub proof fn law_trades_leave_the_tape(
    ticker: Bytes,
    op: TradeOperation,
    before: Engine,
    after: Engine,
    c: CatalogModel,
    d: CatalogModel,
    e: Effects,
)
    requires
        does(ProtocolMessage::Trade { ticker, op }, before, after, c, d, e),
        !(op is Add),
        before.trades@.contains_key(wire::content(ticker)),
    ensures
        e.publish is None && e.store is None,
        op is RemoveAll ==> after.trades@[wire::content(ticker)].len() == 0,
        op is EndOfSubscribe || op is EndOfSnapshot ==> after.trades@ == before.trades@,
        op matches TradeOperation::Delete { trade_id } ==> forall|i: int|
            0 <= i < before.trades@[wire::content(ticker)].len() && wire::content(
                (#[trigger] before.trades@[wire::content(ticker)][i]).trade_id,
            ) == wire::content(trade_id) ==> after.trades@[wire::content(ticker)].len()
                == before.trades@[wire::content(ticker)].len() - 1,
{
    if let TradeOperation::Delete { trade_id } = op {
        let tape = before.trades@[wire::content(ticker)];
        assert forall|i: int|
            0 <= i < tape.len() && wire::content((#[trigger] tape[i]).trade_id) == wire::content(
                trade_id,
            ) implies after.trades@[wire::content(ticker)].len() == tape.len() - 1 by {
            trade::law_removal_finds_the_first(tape, wire::content(trade_id), i);
        }
    }
}

/// A catalog line adds its ticker, and a broker line its broker with code, name
/// and flag, where all of it is text; the end of a list adds nothing.
pub proof fn law_listings_are_kept(
    market: Bytes,
    ticker: Bytes,
    item: GpnItem,
    before: Engine,
    after: Engine,
    c: CatalogModel,
    d: CatalogModel,
    e: Effects,
)
    ensures
        does(
            ProtocolMessage::MqcItem(MqcItem::Symbol { market, ticker }),
            before,
            after,
            c,
            d,
            e,
        ) && utf8::valid_utf8(wire::content(market)) && utf8::valid_utf8(wire::content(ticker))
            ==> d.symbols == c.symbols.insert(utf8::decode_utf8(wire::content(ticker))),
        does(ProtocolMessage::MqcItem(MqcItem::End { market }), before, after, c, d, e) ==> d == c,
        does(ProtocolMessage::GpnItem(item), before, after, c, d, e) && utf8::valid_utf8(
            wire::content(item.cedro_id),
        ) && utf8::valid_utf8(wire::content(item.code)) && utf8::valid_utf8(
            wire::content(item.name),
        ) ==> ({
            let id = utf8::decode_utf8(wire::content(item.cedro_id));
            d.brokers.contains_key(id) && d.brokers[id].code@ == utf8::decode_utf8(
                wire::content(item.code),
            ) && d.brokers[id].name@ == utf8::decode_utf8(wire::content(item.name))
                && d.brokers[id].active == item.active && d.symbols == c.symbols
        }),
{
}

/// A staged trade keeps buyer and seller apart, the aggressor as one for the
/// buyer and two for the seller, and tells direct trades.
pub proof fn law_staged_trade_repeats_the_trade(t: Trade, asset_id: i32, s: StagedTrade)
    requires
        stages(t, asset_id, s),
    ensures
        s.asset_id == asset_id,
        s.price@ == t.price@,
        t.quantity <= i64::MAX ==> s.amount == t.quantity,
        t.quantity > i64::MAX ==> s.amount == i64::MAX,
        t.broker_buy_id <= i32::MAX ==> s.buyer_id == Some(t.broker_buy_id as i32),
        t.broker_buy_id > i32::MAX ==> s.buyer_id is None,
        t.broker_sell_id <= i32::MAX ==> s.seller_id == Some(t.broker_sell_id as i32),
        t.broker_sell_id > i32::MAX ==> s.seller_id is None,
        t.aggressor == TradeAggressor::Buyer ==> s.aggressor_side == Some(1i16),
        t.aggressor == TradeAggressor::Seller ==> s.aggressor_side == Some(2i16),
        t.aggressor != TradeAggressor::Buyer && t.aggressor != TradeAggressor::Seller
            ==> s.aggressor_side is None,
        s.is_direct <==> t.condition == TradeCondition::Direct,
        s.trade_id is Some <==> utf8::valid_utf8(wire::content(t.trade_id)),
        s.trade_id matches Some(id) ==> id@ == utf8::decode_utf8(wire::content(t.trade_id)),
{
}

/// A trade is staged when its ticker is text and its asset is known.
pub proof fn law_when_a_trade_is_staged(
    ticker: Bytes,
    t: Trade,
    asset_id: Option<i32>,
    r: Option<StagedTrade>,
)
    requires
        call_ensures(build_staged_trade, (&ticker, &t, asset_id), r),
    ensures
        r is Some <==> utf8::valid_utf8(wire::content(ticker)) && asset_id is Some,
        r matches Some(s) ==> Some(s.asset_id) == asset_id && s.price@ == t.price@ && (
        t.broker_buy_id <= i32::MAX ==> s.buyer_id == Some(t.broker_buy_id as i32)) && (
        t.broker_sell_id <= i32::MAX ==> s.seller_id == Some(t.broker_sell_id as i32)),
{
}

/// A frame that is refused changes nothing; one that is not does what its message
/// says.
pub proof fn law_frames_are_processed(kind: FrameKind, frame: Bytes)
    ensures
        forall|engine: &mut Engine, catalog: &mut Catalog, e: ParseError| #[trigger]
            call_ensures(process_frame, (engine, catalog, kind, frame), Err(e)) ==> *final(engine)
                == *engine && final(catalog)@ == (*catalog)@ && parser::is_wrong(
                kind,
                wire::content(frame),
                e,
            ),
        forall|engine: &mut Engine, catalog: &mut Catalog, e: Effects| #[trigger]
            call_ensures(process_frame, (engine, catalog, kind, frame), Ok(e)) ==> exists|
                msg: ProtocolMessage,
            | #[trigger]
                parser::says(kind, wire::content(frame), msg) && does(
                    msg,
                    *engine,
                    *final(engine),
                    (*catalog)@,
                    final(catalog)@,
                    e,
                ),
{
}

/// A message does to the engine and the catalog what the laws above say.
pub proof fn law_messages_are_dispatched(msg: ProtocolMessage)
    ensures
        forall|engine: &mut Engine, catalog: &mut Catalog, e: Effects| #[trigger]
            call_ensures(dispatch, (engine, catalog, msg), e) ==> does(
                msg,
                *engine,
                *final(engine),
                (*catalog)@,
                final(catalog)@,
                e,
            ),
{
}

/// A new engine is empty. Zero stands for eight shards, and for one trade per
/// ticker.
pub proof fn law_new_engine_is_empty(n_book_shards: usize, trades_per_ticker: usize, e: Engine)
    requires
        call_ensures(Engine::new, (n_book_shards, trades_per_ticker), e),
    ensures
        e.quote@ == Map::<Seq<u8>, QuoteModel>::empty(),
        e.book@ == Map::<Seq<u8>, BookModel>::empty(),
        e.trades@ == Map::<Seq<u8>, Seq<TradeRecord>>::empty(),
        e.book.filter() is None,
        n_book_shards > 0 ==> e.book.shard_count() == n_book_shards,
        n_book_shards == 0 ==> e.book.shard_count() == 8,
        trades_per_ticker > 0 ==> e.trades.cap() == trades_per_ticker,
        trades_per_ticker == 0 ==> e.trades.cap() == 1,
{
}

} // verus!
