//! Enumerated values of the feed protocol.
//!
//! Every variant stands for a literal code. A code that is not listed comes out
//! as the `Unknown` variant with the code in it, so protocol evolution degrades
//! gracefully.
use crate::text;
use vstd::prelude::*;

verus! {

/// Market identifier: quote index 44.
#[derive(Debug, Clone, Copy, PartialEq, Eq, Hash, Structural)]
pub enum MarketCode {
    Bovespa,
    DowJones,
    Bmf,
    Indices,
    Money,
    Forex,
    Indicators,
    Nyse,
    Nasdaq,
    Cfd,
    Bitcoin,
    Datagro,
    Inews,
    Amex,
    TesouroDireto,
    NyseFmv,
    NasdaqFmv,
    AmexFmv,
    /// A code that is not listed.
    Unknown(u16),
}

/// The MarketCode that a code stands for.
pub open spec fn market_of(code: u16) -> MarketCode {
    if code == 1 {
        MarketCode::Bovespa
    } else if code == 2 {
        MarketCode::DowJones
    } else if code == 3 {
        MarketCode::Bmf
    } else if code == 4 {
        MarketCode::Indices
    } else if code == 5 {
        MarketCode::Money
    } else if code == 7 {
        MarketCode::Forex
    } else if code == 8 {
        MarketCode::Indicators
    } else if code == 10 {
        MarketCode::Nyse
    } else if code == 12 {
        MarketCode::Nasdaq
    } else if code == 13 {
        MarketCode::Cfd
    } else if code == 30 {
        MarketCode::Bitcoin
    } else if code == 44 {
        MarketCode::Datagro
    } else if code == 45 {
        MarketCode::Inews
    } else if code == 52 {
        MarketCode::Amex
    } else if code == 64 {
        MarketCode::TesouroDireto
    } else if code == 76 {
        MarketCode::NyseFmv
    } else if code == 77 {
        MarketCode::NasdaqFmv
    } else if code == 78 {
        MarketCode::AmexFmv
    } else {
        MarketCode::Unknown(code)
    }
}

impl MarketCode {
    /// The MarketCode that `code` stands for.
    #[must_use]
    pub fn from_code(code: u16) -> (r: Self)
        ensures
            r == market_of(code),
    {
        match code {
            1 => MarketCode::Bovespa,
            2 => MarketCode::DowJones,
            3 => MarketCode::Bmf,
            4 => MarketCode::Indices,
            5 => MarketCode::Money,
            7 => MarketCode::Forex,
            8 => MarketCode::Indicators,
            10 => MarketCode::Nyse,
            12 => MarketCode::Nasdaq,
            13 => MarketCode::Cfd,
            30 => MarketCode::Bitcoin,
            44 => MarketCode::Datagro,
            45 => MarketCode::Inews,
            52 => MarketCode::Amex,
            64 => MarketCode::TesouroDireto,
            76 => MarketCode::NyseFmv,
            77 => MarketCode::NasdaqFmv,
            78 => MarketCode::AmexFmv,
            other => MarketCode::Unknown(other),
        }
    }
}

/// Asset type: quote index 45.
#[derive(Debug, Clone, Copy, PartialEq, Eq, Hash, Structural)]
pub enum AssetType {
    Spot,
    Option,
    Index,
    Commodity,
    Currency,
    Term,
    Future,
    Auction,
    Bond,
    Fractional,
    OptionExercise,
    Indicator,
    Etf,
    Volume,
    OptionOnSpot,
    OptionOnFuture,
    Test,
    Strategy,
    Corp,
    Secloan,
    TesouroDireto,
    /// A code that is not listed.
    Unknown(u16),
}

/// The AssetType that a code stands for.
pub open spec fn asset_type_of(code: u16) -> AssetType {
    if code == 1 {
        AssetType::Spot
    } else if code == 2 {
        AssetType::Option
    } else if code == 3 {
        AssetType::Index
    } else if code == 4 {
        AssetType::Commodity
    } else if code == 5 {
        AssetType::Currency
    } else if code == 6 {
        AssetType::Term
    } else if code == 7 {
        AssetType::Future
    } else if code == 8 {
        AssetType::Auction
    } else if code == 9 {
        AssetType::Bond
    } else if code == 10 {
        AssetType::Fractional
    } else if code == 11 {
        AssetType::OptionExercise
    } else if code == 12 {
        AssetType::Indicator
    } else if code == 13 {
        AssetType::Etf
    } else if code == 15 {
        AssetType::Volume
    } else if code == 16 {
        AssetType::OptionOnSpot
    } else if code == 17 {
        AssetType::OptionOnFuture
    } else if code == 18 {
        AssetType::Test
    } else if code == 19 {
        AssetType::Strategy
    } else if code == 20 {
        AssetType::Corp
    } else if code == 21 {
        AssetType::Secloan
    } else if code == 22 {
        AssetType::TesouroDireto
    } else {
        AssetType::Unknown(code)
    }
}

impl AssetType {
    /// The AssetType that `code` stands for.
    #[must_use]
    pub fn from_code(code: u16) -> (r: Self)
        ensures
            r == asset_type_of(code),
    {
        match code {
            1 => AssetType::Spot,
            2 => AssetType::Option,
            3 => AssetType::Index,
            4 => AssetType::Commodity,
            5 => AssetType::Currency,
            6 => AssetType::Term,
            7 => AssetType::Future,
            8 => AssetType::Auction,
            9 => AssetType::Bond,
            10 => AssetType::Fractional,
            11 => AssetType::OptionExercise,
            12 => AssetType::Indicator,
            13 => AssetType::Etf,
            15 => AssetType::Volume,
            16 => AssetType::OptionOnSpot,
            17 => AssetType::OptionOnFuture,
            18 => AssetType::Test,
            19 => AssetType::Strategy,
            20 => AssetType::Corp,
            21 => AssetType::Secloan,
            22 => AssetType::TesouroDireto,
            other => AssetType::Unknown(other),
        }
    }
}

/// Instrument trading status: quote index 67.
#[derive(Debug, Clone, Copy, PartialEq, Eq, Hash, Structural)]
pub enum InstrumentStatus {
    Normal,
    Auction,
    Suspended,
    Frozen,
    Empty,
    /// A code that is not listed.
    Unknown(i16),
}

/// The InstrumentStatus that a code stands for.
pub open spec fn instrument_status_of(code: i16) -> InstrumentStatus {
    if code == 101 {
        InstrumentStatus::Normal
    } else if code == 102 {
        InstrumentStatus::Auction
    } else if code == 105 {
        InstrumentStatus::Suspended
    } else if code == 118 {
        InstrumentStatus::Frozen
    } else if code == -1 {
        InstrumentStatus::Empty
    } else {
        InstrumentStatus::Unknown(code)
    }
}

impl InstrumentStatus {
    /// The InstrumentStatus that `code` stands for.
    #[must_use]
    pub fn from_code(code: i16) -> (r: Self)
        ensures
            r == instrument_status_of(code),
    {
        match code {
            101 => InstrumentStatus::Normal,
            102 => InstrumentStatus::Auction,
            105 => InstrumentStatus::Suspended,
            118 => InstrumentStatus::Frozen,
            -1 => InstrumentStatus::Empty,
            other => InstrumentStatus::Unknown(other),
        }
    }
}

/// Asset status: quote index 84.
#[derive(Debug, Clone, Copy, PartialEq, Eq, Hash, Structural)]
pub enum AssetStatus {
    Normal,
    Frozen,
    Suspended,
    Auction,
    Inhibited,
    /// A code that is not listed.
    Unknown(u16),
}

/// The AssetStatus that a code stands for.
pub open spec fn asset_status_of(code: u16) -> AssetStatus {
    if code == 0 {
        AssetStatus::Normal
    } else if code == 1 {
        AssetStatus::Frozen
    } else if code == 2 {
        AssetStatus::Suspended
    } else if code == 3 {
        AssetStatus::Auction
    } else if code == 4 {
        AssetStatus::Inhibited
    } else {
        AssetStatus::Unknown(code)
    }
}

impl AssetStatus {
    /// The AssetStatus that `code` stands for.
    #[must_use]
    pub fn from_code(code: u16) -> (r: Self)
        ensures
            r == asset_status_of(code),
    {
        match code {
            0 => AssetStatus::Normal,
            1 => AssetStatus::Frozen,
            2 => AssetStatus::Suspended,
            3 => AssetStatus::Auction,
            4 => AssetStatus::Inhibited,
            other => AssetStatus::Unknown(other),
        }
    }
}

/// Trading session phase of an asset group: quote index 88.
#[derive(Debug, Clone, Copy, PartialEq, Eq, Hash)]
pub enum AssetGroupPhase {
    PreOpen,
    Open,
    PreClose,
    Close,
    PreAfterOpen,
    AfterOpen,
    AfterClose,
    Final,
    Closed,
    Paused,
    /// A code that is not listed: its first two bytes, zero where it is shorter.
    Unknown([u8; 2]),
}

/// The first two bytes of `code`, zero where it is shorter.
pub open spec fn two_bytes(code: Seq<u8>) -> Seq<u8> {
    seq![
        if code.len() > 0 {
            code[0]
        } else {
            0
        },
        if code.len() > 1 {
            code[1]
        } else {
            0
        },
    ]
}

/// `phase` is what the code stands for.
pub open spec fn is_phase(code: Seq<u8>, phase: AssetGroupPhase) -> bool {
    if code == text::bytes_of("P") {
        phase == AssetGroupPhase::PreOpen
    } else if code == text::bytes_of("A") {
        phase == AssetGroupPhase::Open
    } else if code == text::bytes_of("PN") {
        phase == AssetGroupPhase::PreClose
    } else if code == text::bytes_of("N") {
        phase == AssetGroupPhase::Close
    } else if code == text::bytes_of("E") {
        phase == AssetGroupPhase::PreAfterOpen
    } else if code == text::bytes_of("R") {
        phase == AssetGroupPhase::AfterOpen
    } else if code == text::bytes_of("NE") {
        phase == AssetGroupPhase::AfterClose
    } else if code == text::bytes_of("F") {
        phase == AssetGroupPhase::Final
    } else if code == text::bytes_of("NO") {
        phase == AssetGroupPhase::Closed
    } else if code == text::bytes_of("T") {
        phase == AssetGroupPhase::Paused
    } else {
        phase matches AssetGroupPhase::Unknown(raw) && raw@ == two_bytes(code)
    }
}

/// The first two bytes of `code`, zero where it is shorter.
pub(crate) fn first_two(code: &[u8]) -> (r: [u8; 2])
    ensures
        r@ == two_bytes(code@),
{
    let first: u8 = if code.len() > 0 {
        code[0]
    } else {
        0
    };
    let second: u8 = if code.len() > 1 {
        code[1]
    } else {
        0
    };
    let r: [u8; 2] = [first, second];
    assert(r@ =~= two_bytes(code@));
    r
}

impl AssetGroupPhase {
    /// The phase that a one- or two-byte code (ASCII, upper case) stands for.
    #[must_use]
    pub fn from_code(code: &[u8]) -> (r: Self)
        ensures
            is_phase(code@, r),
    {
        if text::is_word(code, "P") {
            AssetGroupPhase::PreOpen
        } else if text::is_word(code, "A") {
            AssetGroupPhase::Open
        } else if text::is_word(code, "PN") {
            AssetGroupPhase::PreClose
        } else if text::is_word(code, "N") {
            AssetGroupPhase::Close
        } else if text::is_word(code, "E") {
            AssetGroupPhase::PreAfterOpen
        } else if text::is_word(code, "R") {
            AssetGroupPhase::AfterOpen
        } else if text::is_word(code, "NE") {
            AssetGroupPhase::AfterClose
        } else if text::is_word(code, "F") {
            AssetGroupPhase::Final
        } else if text::is_word(code, "NO") {
            AssetGroupPhase::Closed
        } else if text::is_word(code, "T") {
            AssetGroupPhase::Paused
        } else {
            AssetGroupPhase::Unknown(first_two(code))
        }
    }
}

/// Option style: quote index 72.
#[derive(Debug, Clone, Copy, PartialEq, Eq, Hash, Structural)]
pub enum OptionStyle {
    American,
    European,
    NotAnOption,
    /// A code that is not listed.
    Unknown(u8),
}

/// The OptionStyle that a code stands for.
pub open spec fn option_style_of(b: u8) -> OptionStyle {
    if b == 'A' as u8 {
        OptionStyle::American
    } else if b == 'E' as u8 {
        OptionStyle::European
    } else if b == '0' as u8 {
        OptionStyle::NotAnOption
    } else {
        OptionStyle::Unknown(b)
    }
}

impl OptionStyle {
    /// The OptionStyle that `b` stands for.
    #[must_use]
    pub fn from_byte(b: u8) -> (r: Self)
        ensures
            r == option_style_of(b),
    {
        if b == 'A' as u8 {
            OptionStyle::American
        } else if b == 'E' as u8 {
            OptionStyle::European
        } else if b == '0' as u8 {
            OptionStyle::NotAnOption
        } else {
            OptionStyle::Unknown(b)
        }
    }
}

/// Option direction: quote index 74.
#[derive(Debug, Clone, Copy, PartialEq, Eq, Hash, Structural)]
pub enum OptionDirection {
    Put,
    Call,
    /// A code that is not listed.
    Unknown(u8),
}

/// The OptionDirection that a code stands for.
pub open spec fn option_direction_of(b: u8) -> OptionDirection {
    if b == 'P' as u8 {
        OptionDirection::Put
    } else if b == 'C' as u8 {
        OptionDirection::Call
    } else {
        OptionDirection::Unknown(b)
    }
}

impl OptionDirection {
    /// The OptionDirection that `b` stands for.
    #[must_use]
    pub fn from_byte(b: u8) -> (r: Self)
        ensures
            r == option_direction_of(b),
    {
        if b == 'P' as u8 {
            OptionDirection::Put
        } else if b == 'C' as u8 {
            OptionDirection::Call
        } else {
            OptionDirection::Unknown(b)
        }
    }
}

/// Aggressor side of a trade.
#[derive(Debug, Clone, Copy, PartialEq, Eq, Hash, Structural)]
pub enum TradeAggressor {
    /// `I`: undefined.
    Undefined,
    /// `A`: the buyer was the aggressor.
    Buyer,
    /// `V`: the seller was the aggressor.
    Seller,
    /// A code that is not listed.
    Unknown(u8),
}

/// The TradeAggressor that a code stands for.
pub open spec fn aggressor_of(b: u8) -> TradeAggressor {
    if b == 'I' as u8 {
        TradeAggressor::Undefined
    } else if b == 'A' as u8 {
        TradeAggressor::Buyer
    } else if b == 'V' as u8 {
        TradeAggressor::Seller
    } else {
        TradeAggressor::Unknown(b)
    }
}

impl TradeAggressor {
    /// The TradeAggressor that `b` stands for.
    #[must_use]
    pub fn from_byte(b: u8) -> (r: Self)
        ensures
            r == aggressor_of(b),
    {
        if b == 'I' as u8 {
            TradeAggressor::Undefined
        } else if b == 'A' as u8 {
            TradeAggressor::Buyer
        } else if b == 'V' as u8 {
            TradeAggressor::Seller
        } else {
            TradeAggressor::Unknown(b)
        }
    }
}

/// Trade condition.
#[derive(Debug, Clone, Copy, PartialEq, Eq, Hash, Structural)]
pub enum TradeCondition {
    NotDirect,
    Direct,
    Rlp,
    Rfq,
    MidpointTrade,
    OpeningPrice,
    PointInTimeAuction,
    /// A code that is not listed.
    Unknown(u16),
}

/// The TradeCondition that a code stands for.
pub open spec fn condition_of(code: u16) -> TradeCondition {
    if code == 0 {
        TradeCondition::NotDirect
    } else if code == 1 {
        TradeCondition::Direct
    } else if code == 2 {
        TradeCondition::Rlp
    } else if code == 3 {
        TradeCondition::Rfq
    } else if code == 4 {
        TradeCondition::MidpointTrade
    } else if code == 5 {
        TradeCondition::OpeningPrice
    } else if code == 6 {
        TradeCondition::PointInTimeAuction
    } else {
        TradeCondition::Unknown(code)
    }
}

impl TradeCondition {
    /// The TradeCondition that `code` stands for.
    #[must_use]
    pub fn from_code(code: u16) -> (r: Self)
        ensures
            r == condition_of(code),
    {
        match code {
            0 => TradeCondition::NotDirect,
            1 => TradeCondition::Direct,
            2 => TradeCondition::Rlp,
            3 => TradeCondition::Rfq,
            4 => TradeCondition::MidpointTrade,
            5 => TradeCondition::OpeningPrice,
            6 => TradeCondition::PointInTimeAuction,
            other => TradeCondition::Unknown(other),
        }
    }
}

/// Side of an order book entry.
#[derive(Debug, Clone, Copy, PartialEq, Eq, Hash, Structural)]
pub enum Side {
    /// `A`: buy side (bid).
    Buy,
    /// `V`: sell side (ask).
    Sell,
}

/// The side that a byte stands for, if any.
pub open spec fn side_of(b: u8) -> Option<Side> {
    if b == 'A' as u8 {
        Some(Side::Buy)
    } else if b == 'V' as u8 {
        Some(Side::Sell)
    } else {
        None
    }
}

/// The byte that stands for a side.
pub open spec fn side_byte(side: Side) -> u8 {
    match side {
        Side::Buy => 'A' as u8,
        Side::Sell => 'V' as u8,
    }
}

impl Side {
    /// The side that a feed byte (`A` or `V`) stands for.
    pub fn from_byte(b: u8) -> (r: Option<Self>)
        ensures
            r == side_of(b),
    {
        if b == 'A' as u8 {
            Some(Side::Buy)
        } else if b == 'V' as u8 {
            Some(Side::Sell)
        } else {
            None
        }
    }

    /// The feed byte of this side.
    #[must_use]
    pub fn as_byte(self) -> (r: u8)
        ensures
            r == side_byte(self),
    {
        match self {
            Side::Buy => 'A' as u8,
            Side::Sell => 'V' as u8,
        }
    }

    /// The side in words.
    #[must_use]
    pub fn as_str(self) -> (r: &'static str)
        ensures
            r == match self {
                Side::Buy => "buy",
                Side::Sell => "sell",
            },
    {
        match self {
            Side::Buy => "buy",
            Side::Sell => "sell",
        }
    }
}

/// Side bytes and sides correspond one to one.
pub proof fn law_side_roundtrip(side: Side, b: u8)
    ensures
        side_of(side_byte(side)) == Some(side),
        side_of(b) matches Some(s) ==> side_byte(s) == b,
{
}

/// Codes are never confused: two codes that decode to the same value are the
/// same code. In particular an unlisted code can be read back out of `Unknown`.
pub proof fn law_codes_are_not_confused(a: u16, b: u16, c: i16, d: i16, x: u8, y: u8)
    ensures
        market_of(a) == market_of(b) ==> a == b,
        asset_type_of(a) == asset_type_of(b) ==> a == b,
        asset_status_of(a) == asset_status_of(b) ==> a == b,
        condition_of(a) == condition_of(b) ==> a == b,
        instrument_status_of(c) == instrument_status_of(d) ==> c == d,
        option_style_of(x) == option_style_of(y) ==> x == y,
        option_direction_of(x) == option_direction_of(y) ==> x == y,
        aggressor_of(x) == aggressor_of(y) ==> x == y,
{
}

/// Each market has one code, and every other code is unknown.
pub proof fn law_market_codes(code: u16)
    ensures
        market_of(code) == MarketCode::Bovespa <==> code == 1,
        market_of(code) == MarketCode::DowJones <==> code == 2,
        market_of(code) == MarketCode::Bmf <==> code == 3,
        market_of(code) == MarketCode::Indices <==> code == 4,
        market_of(code) == MarketCode::Money <==> code == 5,
        market_of(code) == MarketCode::Forex <==> code == 7,
        market_of(code) == MarketCode::Indicators <==> code == 8,
        market_of(code) == MarketCode::Nyse <==> code == 10,
        market_of(code) == MarketCode::Nasdaq <==> code == 12,
        market_of(code) == MarketCode::Cfd <==> code == 13,
        market_of(code) == MarketCode::Bitcoin <==> code == 30,
        market_of(code) == MarketCode::Datagro <==> code == 44,
        market_of(code) == MarketCode::Inews <==> code == 45,
        market_of(code) == MarketCode::Amex <==> code == 52,
        market_of(code) == MarketCode::TesouroDireto <==> code == 64,
        market_of(code) == MarketCode::NyseFmv <==> code == 76,
        market_of(code) == MarketCode::NasdaqFmv <==> code == 77,
        market_of(code) == MarketCode::AmexFmv <==> code == 78,
        market_of(code) matches MarketCode::Unknown(c) ==> c == code,
{
}

/// Each type of asset has one code, and every other code is unknown.
pub proof fn law_asset_type_codes(code: u16)
    ensures
        asset_type_of(code) == AssetType::Spot <==> code == 1,
        asset_type_of(code) == AssetType::Option <==> code == 2,
        asset_type_of(code) == AssetType::Index <==> code == 3,
        asset_type_of(code) == AssetType::Commodity <==> code == 4,
        asset_type_of(code) == AssetType::Currency <==> code == 5,
        asset_type_of(code) == AssetType::Term <==> code == 6,
        asset_type_of(code) == AssetType::Future <==> code == 7,
        asset_type_of(code) == AssetType::Auction <==> code == 8,
        asset_type_of(code) == AssetType::Bond <==> code == 9,
        asset_type_of(code) == AssetType::Fractional <==> code == 10,
        asset_type_of(code) == AssetType::OptionExercise <==> code == 11,
        asset_type_of(code) == AssetType::Indicator <==> code == 12,
        asset_type_of(code) == AssetType::Etf <==> code == 13,
        asset_type_of(code) == AssetType::Volume <==> code == 15,
        asset_type_of(code) == AssetType::OptionOnSpot <==> code == 16,
        asset_type_of(code) == AssetType::OptionOnFuture <==> code == 17,
        asset_type_of(code) == AssetType::Test <==> code == 18,
        asset_type_of(code) == AssetType::Strategy <==> code == 19,
        asset_type_of(code) == AssetType::Corp <==> code == 20,
        asset_type_of(code) == AssetType::Secloan <==> code == 21,
        asset_type_of(code) == AssetType::TesouroDireto <==> code == 22,
        asset_type_of(code) matches AssetType::Unknown(c) ==> c == code,
{
}

/// Each status of an instrument has one code, and every other code is unknown.
pub proof fn law_instrument_status_codes(code: i16)
    ensures
        instrument_status_of(code) == InstrumentStatus::Normal <==> code == 101,
        instrument_status_of(code) == InstrumentStatus::Auction <==> code == 102,
        instrument_status_of(code) == InstrumentStatus::Suspended <==> code == 105,
        instrument_status_of(code) == InstrumentStatus::Frozen <==> code == 118,
        instrument_status_of(code) == InstrumentStatus::Empty <==> code == -1,
        instrument_status_of(code) matches InstrumentStatus::Unknown(c) ==> c == code,
{
}

/// Each status of an asset has one code, and every other code is unknown.
pub proof fn law_asset_status_codes(code: u16)
    ensures
        asset_status_of(code) == AssetStatus::Normal <==> code == 0,
        asset_status_of(code) == AssetStatus::Frozen <==> code == 1,
        asset_status_of(code) == AssetStatus::Suspended <==> code == 2,
        asset_status_of(code) == AssetStatus::Auction <==> code == 3,
        asset_status_of(code) == AssetStatus::Inhibited <==> code == 4,
        asset_status_of(code) matches AssetStatus::Unknown(c) ==> c == code,
{
}

/// Each style of option has one letter, and every other byte is unknown.
pub proof fn law_option_style_letters(b: u8)
    ensures
        option_style_of(b) == OptionStyle::American <==> b == 65,
        option_style_of(b) == OptionStyle::European <==> b == 69,
        option_style_of(b) == OptionStyle::NotAnOption <==> b == 48,
        option_style_of(b) matches OptionStyle::Unknown(c) ==> c == b,
{
}

/// A put is `P` and a call is `C`, and every other byte is unknown.
pub proof fn law_option_direction_letters(b: u8)
    ensures
        option_direction_of(b) == OptionDirection::Put <==> b == 80,
        option_direction_of(b) == OptionDirection::Call <==> b == 67,
        option_direction_of(b) matches OptionDirection::Unknown(c) ==> c == b,
{
}

/// The buyer is `A`, the seller `V` and neither `I`, and every other byte is unknown.
pub proof fn law_aggressor_letters(b: u8)
    ensures
        aggressor_of(b) == TradeAggressor::Undefined <==> b == 73,
        aggressor_of(b) == TradeAggressor::Buyer <==> b == 65,
        aggressor_of(b) == TradeAggressor::Seller <==> b == 86,
        aggressor_of(b) matches TradeAggressor::Unknown(c) ==> c == b,
{
}

/// Each condition of a trade has one code, and every other code is unknown.
pub proof fn law_condition_codes(code: u16)
    ensures
        condition_of(code) == TradeCondition::NotDirect <==> code == 0,
        condition_of(code) == TradeCondition::Direct <==> code == 1,
        condition_of(code) == TradeCondition::Rlp <==> code == 2,
        condition_of(code) == TradeCondition::Rfq <==> code == 3,
        condition_of(code) == TradeCondition::MidpointTrade <==> code == 4,
        condition_of(code) == TradeCondition::OpeningPrice <==> code == 5,
        condition_of(code) == TradeCondition::PointInTimeAuction <==> code == 6,
        condition_of(code) matches TradeCondition::Unknown(c) ==> c == code,
{
}

/// `A` is the side that buys, `V` the side that sells, and no other byte is a
/// side.
pub proof fn law_side_letters(b: u8)
    ensures
        side_of(b) == Some(Side::Buy) <==> b == 65,
        side_of(b) == Some(Side::Sell) <==> b == 86,
        side_byte(Side::Buy) == 65,
        side_byte(Side::Sell) == 86,
{
}

/// Each phase has one code of one or two letters. Of every other code the first
/// two bytes are kept, and a missing one is a zero.
pub proof fn law_phase_codes(code: Seq<u8>, phase: AssetGroupPhase)
    requires
        is_phase(code, phase),
    ensures
        phase == AssetGroupPhase::PreOpen <==> code == seq![80u8],
        phase == AssetGroupPhase::Open <==> code == seq![65u8],
        phase == AssetGroupPhase::PreClose <==> code == seq![80u8, 78],
        phase == AssetGroupPhase::Close <==> code == seq![78u8],
        phase == AssetGroupPhase::PreAfterOpen <==> code == seq![69u8],
        phase == AssetGroupPhase::AfterOpen <==> code == seq![82u8],
        phase == AssetGroupPhase::AfterClose <==> code == seq![78u8, 69],
        phase == AssetGroupPhase::Final <==> code == seq![70u8],
        phase == AssetGroupPhase::Closed <==> code == seq![78u8, 79],
        phase == AssetGroupPhase::Paused <==> code == seq![84u8],
        phase matches AssetGroupPhase::Unknown(raw) ==> (code.len() >= 1 ==> raw@[0] == code[0])
            && (code.len() >= 2 ==> raw@[1] == code[1]) && (code.len() == 1 ==> raw@[1] == 0) && (
        code.len() == 0 ==> raw@[0] == 0 && raw@[1] == 0),
{
    reveal_strlit("P");
    reveal_strlit("A");
    reveal_strlit("PN");
    reveal_strlit("N");
    reveal_strlit("E");
    reveal_strlit("R");
    reveal_strlit("NE");
    reveal_strlit("F");
    reveal_strlit("NO");
    reveal_strlit("T");
    text::lemma_ascii_bytes("P");
    text::lemma_ascii_bytes("A");
    text::lemma_ascii_bytes("PN");
    text::lemma_ascii_bytes("N");
    text::lemma_ascii_bytes("E");
    text::lemma_ascii_bytes("R");
    text::lemma_ascii_bytes("NE");
    text::lemma_ascii_bytes("F");
    text::lemma_ascii_bytes("NO");
    text::lemma_ascii_bytes("T");
    assert(text::bytes_of("P") =~= seq![80u8]);
    assert(text::bytes_of("A") =~= seq![65u8]);
    assert(text::bytes_of("PN") =~= seq![80u8, 78]);
    assert(text::bytes_of("N") =~= seq![78u8]);
    assert(text::bytes_of("E") =~= seq![69u8]);
    assert(text::bytes_of("R") =~= seq![82u8]);
    assert(text::bytes_of("NE") =~= seq![78u8, 69]);
    assert(text::bytes_of("F") =~= seq![70u8]);
    assert(text::bytes_of("NO") =~= seq![78u8, 79]);
    assert(text::bytes_of("T") =~= seq![84u8]);
    assert(seq![80u8][0] == 80 && seq![65u8][0] == 65 && seq![78u8][0] == 78 && seq![69u8][0] == 69
        && seq![82u8][0] == 82 && seq![70u8][0] == 70 && seq![84u8][0] == 84);
    assert(seq![80u8, 78][0] == 80 && seq![78u8, 69][1] == 69 && seq![78u8, 79][1] == 79);
    assert(seq![80u8, 78].len() == 2 && seq![78u8, 69].len() == 2 && seq![78u8, 79].len() == 2);
}

/// The sides in words and in letters.
pub proof fn law_sides_are_named(
    buy: &'static str,
    sell: &'static str,
    b: u8,
    side: Option<Side>,
    letter: u8,
)
    requires
        call_ensures(Side::as_str, (Side::Buy,), buy),
        call_ensures(Side::as_str, (Side::Sell,), sell),
        call_ensures(Side::from_byte, (b,), side),
        side is Some ==> call_ensures(Side::as_byte, (side->0,), letter),
    ensures
        buy == "buy",
        sell == "sell",
        side == Some(Side::Buy) <==> b == 65,
        side == Some(Side::Sell) <==> b == 86,
        side is Some ==> letter == b,
{
}

} // verus!
