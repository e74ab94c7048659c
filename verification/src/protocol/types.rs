//! Typed messages: one variant of [`ProtocolMessage`] per functional header.
use crate::decimal::Decimal;
use crate::protocol::enums::{Side, TradeAggressor, TradeCondition};
use bytes::Bytes;
use vstd::prelude::*;

verus! {

/// All possible top-level messages parsed from a Cedro frame.
///
/// The `Bytes` fields share the original socket buffer (zero-copy slices) so
/// dispatching messages between threads is cheap.
#[derive(Debug, Clone)]
pub enum ProtocolMessage {
    /// Quote update - `T:<ticker>:<time>:<idx>:<val>:...!`
    Quote {
        ticker: Bytes,
        /// HHMMSS at the time of the update.
        time_hhmmss: u32,
        /// Sparse diff: only the indices that changed.
        diff: QuoteDiff,
    },
    /// Detailed book operation - `B:<ticker>:...`
    Book { ticker: Bytes, op: BookOp },
    /// Aggregated book operation - `Z:<ticker>:...`
    AggBook { ticker: Bytes, op: AggBookOp },
    /// Trade update - `V:<ticker>:...`
    Trade { ticker: Bytes, op: TradeOperation },
    /// News message - `O:...`
    News(NewsMessage),
    /// Volume at price - `VAP:...`
    Vap(VapEntry),
    /// Server time - `GTC:YYYYMMDDHHMMSS`
    ServerTime(ServerTime),
    /// MQC catalog item or terminator - `C:<MARKET>:<ticker>` / `C:<MARKET>:E`
    MqcItem(MqcItem),
    /// GPN broker entry - `G:<exchange>:<code>:<name>:<cedro_id>:<active>`
    GpnItem(GpnItem),
    /// Protocol-level error - `E:<code>[:<context>...]`
    Error(CedroError),
}

/// Newtype around the Cedro quote index (0..=215).
///
/// We keep this opaque so callers can't accidentally pass an arbitrary `u16`
/// where a quote index is expected.
#[derive(Debug, Clone, Copy, PartialEq, Eq, Hash, PartialOrd, Ord, Structural)]
pub struct QuoteFieldId(pub u16);

/// A heterogeneous quote field value.
///
/// Parsing keeps the cheapest representation that preserves precision:
/// integers stay `i64`/`u64`, floats stay `Decimal`, strings stay as zero-copy
/// `Bytes`. Single-character flags use `u8`.
#[derive(Debug, Clone, PartialEq)]
pub enum QuoteFieldValue {
    Float(Decimal),
    Int(i64),
    /// HHMMSS or `HHMMSSmmm` - preserved as the raw integer.
    Time(u32),
    /// YYYYMMDD as integer.
    Date(u32),
    /// YYYYMMDDHHMMSS as integer.
    DateTime(u64),
    /// Single character (flag, status code).
    Char(u8),
    /// Two-character phase code.
    Phase([u8; 2]),
    /// Free-form string (ticker description, classification name, etc).
    Str(Bytes),
}

/// Sparse list of `(field_id, value)` pairs.
///
/// The first message after a `SQT` subscribe carries the full snapshot;
/// subsequent messages only carry the changed indices.
pub type QuoteDiff = Vec<(QuoteFieldId, QuoteFieldValue)>;

/// Single operation on the detailed order book.
#[derive(Debug, Clone, PartialEq)]
pub enum BookOp {
    /// `A:<pos>:<side>:<price>:<qty>:<broker>:<DDMMHHMM>:<order_id>:<offer_type>`
    Add(BookEntry),
    /// `U:<new_pos>:<old_pos>:<side>:<price>:<qty>:<broker>:<DDMMHHMM>:<order_id>:<offer_type>`
    Update { old_pos: u32, entry: BookEntry },
    /// `D:<delete_kind>:[<side>:<pos>]` - see [`BookDelete`].
    Delete(BookDelete),
    /// `E` - end of initial snapshot; subsequent messages are deltas.
    EndOfInitial,
}

#[derive(Debug, Clone, PartialEq)]
pub struct BookEntry {
    pub position: u32,
    pub side: Side,
    pub price: Decimal,
    pub quantity: u64,
    /// Broker code (Cedro internal id - joinable with `GpnItem.cedro_id`).
    pub broker_id: u32,
    /// Raw DDMMHHMM stamp as the server emitted it. Note: NO year, NO seconds.
    pub timestamp_ddmmhhmm: u32,
    /// Unique-ish order identifier (broker + instrument + side scope).
    ///
    /// `None` when the feed only sends the legacy 7-field BQT layout (no
    /// trailing `OrderID:offer_type`); some markets / older firmware do this.
    pub order_id: Option<Bytes>,
    /// `L` = Limit order, `O` = Opening-price order. `None` paired with
    /// `order_id: None` in the legacy layout.
    pub offer_type: Option<u8>,
}

/// Variants of the `D` message in BQT.
#[derive(Debug, Clone, Copy, PartialEq, Eq, Structural)]
pub enum BookDelete {
    /// `D:1:<side>:<pos>` - delete a single entry.
    Single { side: Side, position: u32 },
    /// `D:2:<side>:<pos>` - delete entries from index 0..=position.
    PrefixInclusive { side: Side, position: u32 },
    /// `D:3` - clear the entire book (both sides). No side/position payload.
    ClearAll,
}

/// Operation on the aggregated (price-level) book.
#[derive(Debug, Clone, PartialEq)]
pub enum AggBookOp {
    Add(AggBookLevel),
    Update(AggBookLevel),
    /// Only types `1` (single position) and `3` (clear all) are valid for SAB.
    Delete(BookDelete),
    EndOfInitial,
}

#[derive(Debug, Clone, PartialEq)]
pub struct AggBookLevel {
    pub position: u32,
    pub side: Side,
    pub price: Decimal,
    pub quantity: u64,
    /// Number of individual offers aggregated into this level.
    pub offer_count: u32,
    pub timestamp_ddmmhhmm: u32,
}

/// Top-level GQT operation - add, delete-one, or remove-all.
#[derive(Debug, Clone, PartialEq)]
pub enum TradeOperation {
    Add(Trade),
    /// `D:<trade_id>` - remove a specific trade (e.g., bust correction).
    Delete { trade_id: Bytes },
    /// `R` - remove every trade for this ticker.
    RemoveAll,
    /// `E` - end of subscribe snapshot.
    EndOfSubscribe,
    /// `E:<request_id>` - end of one-shot snapshot. Carries the request id.
    EndOfSnapshot { request_id: Bytes },
}

/// A single trade. Covers both subscribe and snapshot variants:
/// the optional `request_id` field is present only in snapshot mode.
#[derive(Debug, Clone, PartialEq)]
pub struct Trade {
    /// `A`, kept for downstream diagnostics.
    pub operation_code: u8,
    pub time_hhmmss: u32,
    pub price: Decimal,
    pub broker_buy_id: u32,
    pub broker_sell_id: u32,
    pub quantity: u64,
    pub trade_id: Bytes,
    /// Only present on snapshot (`N`) responses.
    pub request_id: Option<Bytes>,
    pub condition: TradeCondition,
    pub aggressor: TradeAggressor,
    /// Raw original-condition flags (space-separated).
    /// Kept as bytes because the list of valid flags is open-ended.
    pub original_conditions: Bytes,
}

#[derive(Debug, Clone, PartialEq, Eq)]
pub enum NewsMessage {
    /// `A:<agency>:<code>:<date>:<time>:<category>:<title_len>:<title>`
    Headline(NewsHeadline),
    /// `L:<request_id>:<agency>:<code>:<date>:<time>:<category>:<title_len>:<title>`
    HistoryItem {
        request_id: Bytes,
        headline: NewsHeadline,
    },
    /// `L:<request_id>:END` - end of history list.
    HistoryEnd { request_id: Bytes },
    /// `N:<request_id>:<agency>:<code>:<body>` - note: line breaks in the body
    /// are encoded as ASCII 0x03 (ETX) and MUST be translated back to `\n`
    /// before display.
    Body {
        request_id: Bytes,
        agency: Bytes,
        code: Bytes,
        body_raw: Bytes,
    },
}

#[derive(Debug, Clone, PartialEq, Eq)]
pub struct NewsHeadline {
    pub agency: Bytes,
    pub code: Bytes,
    /// YYYYMMDD.
    pub date: u32,
    /// HHMMSS.
    pub time: u32,
    pub category: u32,
    pub title: Bytes,
}

#[derive(Debug, Clone, PartialEq)]
pub struct VapEntry {
    pub ticker: Bytes,
    pub price: Decimal,
    pub buyer_trades: Decimal,
    pub buyer_volume: Decimal,
    pub seller_trades: Decimal,
    pub seller_volume: Decimal,
    pub direct_trades: Decimal,
    pub direct_volume: Decimal,
    pub undefined_trades: Decimal,
    pub undefined_volume: Decimal,
    /// Period in minutes; `None` for the no-period variant.
    pub period_minutes: Option<u32>,
    pub rlp_trades: Decimal,
    pub rlp_volume: Decimal,
    pub auction_trades: Decimal,
    pub auction_volume: Decimal,
}

#[derive(Debug, Clone, Copy, PartialEq, Eq, Hash, Structural)]
pub struct ServerTime {
    /// YYYYMMDD.
    pub date: u32,
    /// HHMMSS.
    pub time: u32,
}

/// One catalog entry returned by `MQC`.
#[derive(Debug, Clone, PartialEq, Eq)]
pub enum MqcItem {
    /// `C:<MARKET>:<TICKER>` (possibly with extra fields after position 2).
    Symbol { market: Bytes, ticker: Bytes },
    /// `C:<MARKET>:E` - end-of-list sentinel.
    End { market: Bytes },
}

#[derive(Debug, Clone, PartialEq, Eq)]
pub struct GpnItem {
    pub exchange: Bytes,
    /// Exchange-assigned broker code (e.g., "120" for Clear).
    pub code: Bytes,
    /// Short name / fantasy name.
    pub name: Bytes,
    /// Internal Cedro identifier. This is the one referenced from BQT/GQT/SQT.
    pub cedro_id: Bytes,
    pub active: bool,
}

/// Wire-level protocol error frame - `E:<code>[:<context...>]`.
///
/// Not to be confused with [`crate::protocol::parser::ParseError`], which
/// stands for a frame that does not parse.
#[derive(Debug, Clone, PartialEq, Eq)]
pub struct CedroError {
    pub code: u16,
    /// Remaining colon-separated context tokens, in original order.
    pub context: Vec<Bytes>,
}

/// Codes of errors that a bug on the client's side causes.
pub open spec fn client_bug_codes() -> Set<u16> {
    set![1u16, 4, 5, 10, 13, 14]
}

/// Codes of passing troubles on the server's side.
pub open spec fn transient_codes() -> Set<u16> {
    set![11u16, 15]
}

/// Codes that end the session for good: a duplicate connection or lost access.
pub open spec fn disconnect_codes() -> Set<u16> {
    set![6u16, 7, 8, 9]
}

impl CedroError {
    /// `true` for codes that a bug on the client's side causes.
    #[must_use]
    pub fn is_client_bug(&self) -> (r: bool)
        ensures
            r == client_bug_codes().contains(self.code),
    {
        matches!(self.code, 1 | 4 | 5 | 10 | 13 | 14)
    }

    /// `true` for codes that indicate transient server issues.
    #[must_use]
    pub fn is_transient_server(&self) -> (r: bool)
        ensures
            r == transient_codes().contains(self.code),
    {
        matches!(self.code, 11 | 15)
    }

    /// `true` for the server-migration code: the caller should reconnect to
    /// the new host carried in [`Self::context`].
    #[must_use]
    pub fn is_migration(&self) -> (r: bool)
        ensures
            r == (self.code == 12),
    {
        self.code == 12
    }

    /// `true` for duplicate-connection and lost-access codes. **Do not**
    /// reconnect automatically in this case.
    #[must_use]
    pub fn is_forced_disconnect(&self) -> (r: bool)
        ensures
            r == disconnect_codes().contains(self.code),
    {
        self.code >= 6 && self.code <= 9
    }
}

/// An error code calls for at most one reaction: no code is in two classes.
pub proof fn law_error_classes_are_disjoint(code: u16)
    ensures
        client_bug_codes().contains(code) ==> !transient_codes().contains(code)
            && !disconnect_codes().contains(code) && code != 12,
        transient_codes().contains(code) ==> !disconnect_codes().contains(code) && code != 12,
        disconnect_codes().contains(code) ==> code != 12,
{
}

/// Which codes are faults of the client, which are passing faults of the server,
/// and which end the connection.
pub proof fn law_error_codes(code: u16)
    ensures
        client_bug_codes().contains(code) <==> code == 1 || code == 4 || code == 5 || code == 10
            || code == 13 || code == 14,
        transient_codes().contains(code) <==> code == 11 || code == 15,
        disconnect_codes().contains(code) <==> 6 <= code <= 9,
{
}

/// Each question about an error is answered by its code.
pub proof fn law_errors_are_told_by_code(
    e: CedroError,
    bug: bool,
    passing: bool,
    moved: bool,
    out: bool,
)
    requires
        call_ensures(CedroError::is_client_bug, (&e,), bug),
        call_ensures(CedroError::is_transient_server, (&e,), passing),
        call_ensures(CedroError::is_migration, (&e,), moved),
        call_ensures(CedroError::is_forced_disconnect, (&e,), out),
    ensures
        bug <==> e.code == 1 || e.code == 4 || e.code == 5 || e.code == 10 || e.code == 13 || e.code
            == 14,
        passing <==> e.code == 11 || e.code == 15,
        moved <==> e.code == 12,
        out <==> 6 <= e.code <= 9,
{
}

} // verus!
