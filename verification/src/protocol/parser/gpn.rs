//! `GPN` broker dictionary lines:
//! `G:<EXCHANGE>:<CODE>:<NAME>:<CEDRO_ID>:<ACTIVE>`, where the last is `1` or
//! `0`. The list has no end marker.
use crate::protocol::parser::scanner;
use crate::protocol::parser::scanner::Scanner;
use crate::protocol::parser::ParseError;
use crate::protocol::types::{GpnItem, ProtocolMessage};
use crate::text;
use crate::wire;
use bytes::Bytes;
use vstd::prelude::*;

verus! {

/// What is wrong with a frame of these fields: the first fault from the left.
pub open spec fn fault(f: Seq<Seq<u8>>) -> Option<ParseError> {
    scanner::or_else(
        scanner::missing(f, 0, "G header"),
        scanner::or_else(
            scanner::missing(f, 1, "exchange"),
            scanner::or_else(
                scanner::missing(f, 2, "broker code"),
                scanner::or_else(
                    scanner::missing(f, 3, "broker name"),
                    scanner::or_else(
                        scanner::missing(f, 4, "cedro id"),
                        scanner::or_else(
                            scanner::missing(f, 5, "active flag"),
                            if f[5] == text::bytes_of("1") || f[5] == text::bytes_of("0") {
                                None
                            } else {
                                Some(
                                    ParseError::InvalidField {
                                        field: "active flag",
                                        reason: "expected '0' or '1'",
                                    },
                                )
                            },
                        ),
                    ),
                ),
            ),
        ),
    )
}

/// `msg` is what the fields say.
pub open spec fn is_message(f: Seq<Seq<u8>>, msg: ProtocolMessage) -> bool {
    msg matches ProtocolMessage::GpnItem(item) && wire::content(item.exchange) == f[1]
        && wire::content(item.code) == f[2] && wire::content(item.name) == f[3] && wire::content(
        item.cedro_id,
    ) == f[4] && item.active == (f[5] == text::bytes_of("1"))
}

/// Parses a `GPN` line.
pub fn parse(frame: Bytes) -> (r: Result<ProtocolMessage, ParseError>)
    ensures
        match r {
            Ok(msg) => fault(scanner::fields(wire::content(frame))) is None && is_message(
                scanner::fields(wire::content(frame)),
                msg,
            ),
            Err(e) => fault(scanner::fields(wire::content(frame))) == Some(e),
        },
{
    let mut scanner = Scanner::new(frame);
    let _header = scanner.required("G header")?;
    let exchange = scanner.required("exchange")?;
    let code = scanner.required("broker code")?;
    let name = scanner.required("broker name")?;
    let cedro_id = scanner.required("cedro id")?;
    let active_field = scanner.required("active flag")?;
    let flag = wire::as_slice(&active_field);
    proof {
        lemma_letters();
    }
    let active: bool = if text::is_word(flag, "1") {
        true
    } else if text::is_word(flag, "0") {
        false
    } else {
        return Err(
            ParseError::InvalidField { field: "active flag", reason: "expected '0' or '1'" },
        );
    };
    Ok(ProtocolMessage::GpnItem(GpnItem { exchange, code, name, cedro_id, active }))
}

/// The two flags are told apart.
proof fn lemma_letters()
    ensures
        text::bytes_of("1") != text::bytes_of("0"),
{
    reveal_strlit("1");
    reveal_strlit("0");
    text::lemma_one_byte("1", '1');
    text::lemma_one_byte("0", '0');
    assert(text::bytes_of("1")[0] == '1' as u8);
    assert(text::bytes_of("0")[0] == '0' as u8);
}

} // verus!
