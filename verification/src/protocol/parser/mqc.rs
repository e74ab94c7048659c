//! `MQC` catalog frames: `C:<MARKET>:<TICKER>[:<extra fields>...]`, and
//! `C:<MARKET>:E` at the end of the list.
//!
//! Only a frame of exactly three fields whose last is `E` ends the list. What
//! stands behind a ticker is ignored.
use crate::protocol::parser::scanner;
use crate::protocol::parser::scanner::Scanner;
use crate::protocol::parser::ParseError;
use crate::protocol::types::{MqcItem, ProtocolMessage};
use crate::text;
use crate::wire;
use bytes::Bytes;
use vstd::prelude::*;

verus! {

/// What is wrong with a frame of these fields: the first fault from the left.
pub open spec fn fault(f: Seq<Seq<u8>>) -> Option<ParseError> {
    scanner::or_else(
        scanner::missing(f, 0, "C header"),
        scanner::or_else(
            scanner::missing(f, 1, "market"),
            scanner::missing(f, 2, "ticker or end-sentinel"),
        ),
    )
}

/// `msg` is what the fields say.
pub open spec fn is_message(f: Seq<Seq<u8>>, msg: ProtocolMessage) -> bool {
    if f.len() == 3 && f[2] == text::bytes_of("E") {
        msg matches ProtocolMessage::MqcItem(MqcItem::End { market }) && wire::content(market)
            == f[1]
    } else {
        msg matches ProtocolMessage::MqcItem(MqcItem::Symbol { market, ticker }) && wire::content(
            market,
        ) == f[1] && wire::content(ticker) == f[2]
    }
}

/// Parses a `MQC` frame.
pub fn parse(frame: Bytes) -> (r: Result<ProtocolMessage, ParseError>)
    ensures
        match r {
            Ok(msg) => fault(scanner::fields(wire::content(frame))) is None && is_message(
                scanner::fields(wire::content(frame)),
                msg,
            ),
            Err(e) => fault(scanner::fields(wire::content(frame))) == Some(e),
        },
{
    let mut scanner = Scanner::new(frame);
    let _header = scanner.required("C header")?;
    let market = scanner.required("market")?;
    let third = scanner.required("ticker or end-sentinel")?;
    if text::is_word(wire::as_slice(&third), "E") && scanner.next().is_none() {
        return Ok(ProtocolMessage::MqcItem(MqcItem::End { market }));
    }
    Ok(ProtocolMessage::MqcItem(MqcItem::Symbol { market, ticker: third }))
}

} // verus!
