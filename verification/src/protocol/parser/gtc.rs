//! `GTC` server time: `GTC:<YYYYMMDD><HHMMSS>`, one field of fourteen digits.
use crate::protocol::parser::scanner;
use crate::protocol::parser::scanner::Scanner;
use crate::protocol::parser::ParseError;
use crate::protocol::types::{ProtocolMessage, ServerTime};
use crate::text;
use crate::wire;
use bytes::Bytes;
use vstd::prelude::*;

verus! {

/// What is wrong with a frame of these fields: the first fault from the left.
pub open spec fn fault(f: Seq<Seq<u8>>) -> Option<ParseError> {
    scanner::or_else(
        scanner::missing(f, 0, "GTC header"),
        scanner::or_else(
            scanner::missing(f, 1, "server time payload"),
            if f[1].len() != 14 {
                Some(
                    ParseError::InvalidField {
                        field: "server time",
                        reason: "expected 14-digit YYYYMMDDHHMMSS",
                    },
                )
            } else {
                scanner::or_else(
                    scanner::bad_unsigned(f[1].take(8), u32::MAX as nat, "GTC date"),
                    scanner::bad_unsigned(f[1].skip(8), u32::MAX as nat, "GTC time"),
                )
            },
        ),
    )
}

/// `msg` is what the fields say.
pub open spec fn is_message(f: Seq<Seq<u8>>, msg: ProtocolMessage) -> bool {
    msg matches ProtocolMessage::ServerTime(t) && t.date == text::number(f[1].take(8)) && t.time
        == text::number(f[1].skip(8))
}

/// Parses a `GTC` frame.
pub fn parse(frame: Bytes) -> (r: Result<ProtocolMessage, ParseError>)
    ensures
        match r {
            Ok(msg) => fault(scanner::fields(wire::content(frame))) is None && is_message(
                scanner::fields(wire::content(frame)),
                msg,
            ),
            Err(e) => fault(scanner::fields(wire::content(frame))) == Some(e),
        },
{
    let mut scanner = Scanner::new(frame);
    let _header = scanner.required("GTC header")?;
    let payload_field = scanner.required("server time payload")?;
    let payload = wire::as_slice(&payload_field);
    if payload.len() != 14 {
        return Err(
            ParseError::InvalidField {
                field: "server time",
                reason: "expected 14-digit YYYYMMDDHHMMSS",
            },
        );
    }
    let date_digits = vstd::slice::slice_subrange(payload, 0, 8);
    let time_digits = vstd::slice::slice_subrange(payload, 8, 14);
    assert(date_digits@ =~= payload@.take(8));
    assert(time_digits@ =~= payload@.skip(8));
    let date = scanner::parse_u32(date_digits, "GTC date")?;
    let time = scanner::parse_u32(time_digits, "GTC time")?;
    Ok(ProtocolMessage::ServerTime(ServerTime { date, time }))
}

} // verus!
