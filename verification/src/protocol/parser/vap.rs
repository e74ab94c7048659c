//! `VAP` volume-at-price frames.
//!
//! A data line has sixteen fields:
//! `VAP:<ticker>:<price>:<qty_buyer>:<vol_buyer>:<qty_seller>:<vol_seller>:<qty_direct>:<vol_direct>:<qty_undef>:<vol_undef>:<period>:<qty_rlp>:<vol_rlp>:<qty_auction>:<vol_auction>`
//!
//! A batch ends with `VAP:<ticker>:E` or `VAP:<ticker>:E:<period>`. The end
//! comes out as an entry whose numbers are all zero. A period of `0` means that
//! none was asked for.
use crate::decimal::Decimal;
use crate::protocol::parser::scanner;
use crate::protocol::parser::scanner::Scanner;
use crate::protocol::parser::ParseError;
use crate::protocol::types::{ProtocolMessage, VapEntry};
use crate::text;
use crate::wire;
use bytes::Bytes;
use vstd::prelude::*;

verus! {

/// The frame is an end marker.
pub open spec fn is_end(f: Seq<Seq<u8>>) -> bool {
    f[2] == text::bytes_of("E")
}

/// A token that stands for "no period".
pub open spec fn is_no_period(s: Seq<u8>) -> bool {
    s.len() == 0 || s == text::bytes_of("0")
}

/// What is wrong with an end marker: only its period can be.
pub open spec fn end_fault(f: Seq<Seq<u8>>) -> Option<ParseError> {
    if f.len() > 3 && f[3].len() > 0 {
        scanner::bad_unsigned(f[3], u32::MAX as nat, "vap period")
    } else {
        None
    }
}

/// What is wrong with the period of a data line.
pub open spec fn period_fault(f: Seq<Seq<u8>>) -> Option<ParseError> {
    scanner::or_else(
        scanner::missing(f, 11, "vap period"),
        if is_no_period(f[11]) {
            None
        } else {
            scanner::bad_unsigned(f[11], u32::MAX as nat, "vap period")
        },
    )
}

/// What is wrong with the first ten numbers of a data line.
pub open spec fn flow_fault(f: Seq<Seq<u8>>) -> Option<ParseError> {
    scanner::or_else(
        scanner::bad_decimal(f[2], "vap price"),
        scanner::or_else(
            scanner::decimal_fault(f, 3, "vap buyer_trades"),
            scanner::or_else(
                scanner::decimal_fault(f, 4, "vap buyer_volume"),
                scanner::or_else(
                    scanner::decimal_fault(f, 5, "vap seller_trades"),
                    scanner::or_else(
                        scanner::decimal_fault(f, 6, "vap seller_volume"),
                        scanner::or_else(
                            scanner::decimal_fault(f, 7, "vap direct_trades"),
                            scanner::or_else(
                                scanner::decimal_fault(f, 8, "vap direct_volume"),
                                scanner::or_else(
                                    scanner::decimal_fault(f, 9, "vap undefined_trades"),
                                    scanner::decimal_fault(f, 10, "vap undefined_volume"),
                                ),
                            ),
                        ),
                    ),
                ),
            ),
        ),
    )
}

/// What is wrong with the last four numbers of a data line.
pub open spec fn special_fault(f: Seq<Seq<u8>>) -> Option<ParseError> {
    scanner::or_else(
        scanner::decimal_fault(f, 12, "vap rlp_trades"),
        scanner::or_else(
            scanner::decimal_fault(f, 13, "vap rlp_volume"),
            scanner::or_else(
                scanner::decimal_fault(f, 14, "vap auction_trades"),
                scanner::decimal_fault(f, 15, "vap auction_volume"),
            ),
        ),
    )
}

/// What is wrong with a frame of these fields: the first fault from the left.
pub open spec fn fault(f: Seq<Seq<u8>>) -> Option<ParseError> {
    scanner::or_else(
        scanner::missing(f, 0, "VAP header"),
        scanner::or_else(
            scanner::missing(f, 1, "ticker"),
            scanner::or_else(
                scanner::missing(f, 2, "price or terminator"),
                if is_end(f) {
                    end_fault(f)
                } else {
                    scanner::or_else(
                        flow_fault(f),
                        scanner::or_else(period_fault(f), special_fault(f)),
                    )
                },
            ),
        ),
    )
}

/// `e` is an end marker with the period that the fields give.
pub open spec fn is_end_entry(f: Seq<Seq<u8>>, e: VapEntry) -> bool {
    let zero = text::bytes_of("0");
    &&& wire::content(e.ticker) == f[1]
    &&& e.price@ == zero
    &&& e.buyer_trades@ == zero
    &&& e.buyer_volume@ == zero
    &&& e.seller_trades@ == zero
    &&& e.seller_volume@ == zero
    &&& e.direct_trades@ == zero
    &&& e.direct_volume@ == zero
    &&& e.undefined_trades@ == zero
    &&& e.undefined_volume@ == zero
    &&& e.rlp_trades@ == zero
    &&& e.rlp_volume@ == zero
    &&& e.auction_trades@ == zero
    &&& e.auction_volume@ == zero
    &&& match e.period_minutes {
        Some(p) => f.len() > 3 && f[3].len() > 0 && p == text::number(f[3]),
        None => f.len() <= 3 || f[3].len() == 0,
    }
}

/// `e` is the data line that the fields give.
pub open spec fn is_data_entry(f: Seq<Seq<u8>>, e: VapEntry) -> bool {
    &&& wire::content(e.ticker) == f[1]
    &&& e.price@ == f[2]
    &&& e.buyer_trades@ == f[3]
    &&& e.buyer_volume@ == f[4]
    &&& e.seller_trades@ == f[5]
    &&& e.seller_volume@ == f[6]
    &&& e.direct_trades@ == f[7]
    &&& e.direct_volume@ == f[8]
    &&& e.undefined_trades@ == f[9]
    &&& e.undefined_volume@ == f[10]
    &&& match e.period_minutes {
        Some(p) => !is_no_period(f[11]) && p == text::number(f[11]),
        None => is_no_period(f[11]),
    }
    &&& e.rlp_trades@ == f[12]
    &&& e.rlp_volume@ == f[13]
    &&& e.auction_trades@ == f[14]
    &&& e.auction_volume@ == f[15]
}

/// `msg` is what the fields say.
pub open spec fn is_message(f: Seq<Seq<u8>>, msg: ProtocolMessage) -> bool {
    msg matches ProtocolMessage::Vap(e) && if is_end(f) {
        is_end_entry(f, e)
    } else {
        is_data_entry(f, e)
    }
}

/// Parses a `VAP` frame.
pub fn parse(frame: Bytes) -> (r: Result<ProtocolMessage, ParseError>)
    ensures
        match r {
            Ok(msg) => fault(scanner::fields(wire::content(frame))) is None && is_message(
                scanner::fields(wire::content(frame)),
                msg,
            ),
            Err(e) => fault(scanner::fields(wire::content(frame))) == Some(e),
        },
{
    let mut scanner = Scanner::new(frame);
    let _header = scanner.required("VAP header")?;
    let ticker = scanner.required("ticker")?;
    let third = scanner.required("price or terminator")?;
    if text::is_word(wire::as_slice(&third), "E") {
        let period_minutes: Option<u32> = match scanner.next() {
            Some(p) => {
                let token = wire::as_slice(&p);
                if token.len() == 0 {
                    None
                } else {
                    Some(scanner::parse_u32(token, "vap period")?)
                }
            },
            None => None,
        };
        return Ok(
            ProtocolMessage::Vap(
                VapEntry {
                    ticker,
                    price: Decimal::zero(),
                    buyer_trades: Decimal::zero(),
                    buyer_volume: Decimal::zero(),
                    seller_trades: Decimal::zero(),
                    seller_volume: Decimal::zero(),
                    direct_trades: Decimal::zero(),
                    direct_volume: Decimal::zero(),
                    undefined_trades: Decimal::zero(),
                    undefined_volume: Decimal::zero(),
                    period_minutes,
                    rlp_trades: Decimal::zero(),
                    rlp_volume: Decimal::zero(),
                    auction_trades: Decimal::zero(),
                    auction_volume: Decimal::zero(),
                },
            ),
        );
    }
    let price = scanner::parse_decimal(&third, "vap price")?;
    let buyer_trades = scanner.required_decimal("vap buyer_trades")?;
    let buyer_volume = scanner.required_decimal("vap buyer_volume")?;
    let seller_trades = scanner.required_decimal("vap seller_trades")?;
    let seller_volume = scanner.required_decimal("vap seller_volume")?;
    let direct_trades = scanner.required_decimal("vap direct_trades")?;
    let direct_volume = scanner.required_decimal("vap direct_volume")?;
    let undefined_trades = scanner.required_decimal("vap undefined_trades")?;
    let undefined_volume = scanner.required_decimal("vap undefined_volume")?;
    let period_raw = scanner.required("vap period")?;
    let period_token = wire::as_slice(&period_raw);
    let period_minutes: Option<u32> = if period_token.len() == 0 || text::is_word(
        period_token,
        "0",
    ) {
        None
    } else {
        Some(scanner::parse_u32(period_token, "vap period")?)
    };
    let rlp_trades = scanner.required_decimal("vap rlp_trades")?;
    let rlp_volume = scanner.required_decimal("vap rlp_volume")?;
    let auction_trades = scanner.required_decimal("vap auction_trades")?;
    let auction_volume = scanner.required_decimal("vap auction_volume")?;
    Ok(
        ProtocolMessage::Vap(
            VapEntry {
                ticker,
                price,
                buyer_trades,
                buyer_volume,
                seller_trades,
                seller_volume,
                direct_trades,
                direct_volume,
                undefined_trades,
                undefined_volume,
                period_minutes,
                rlp_trades,
                rlp_volume,
                auction_trades,
                auction_volume,
            },
        ),
    )
}

} // verus!
