//! `SAB` aggregated book frames.
//!
//! As `BQT`, with a count of offers in place of broker, order id and offer
//! type. The prefix delete is not part of it.
//!
//! | Op | Fields |
//! |----|--------|
//! | A  | `Z:<ticker>:A:<pos>:<side>:<price>:<qty>:<offer_count>:<DDMMHHMM>` |
//! | U  | `Z:<ticker>:U:<pos>:<side>:<price>:<qty>:<offer_count>:<DDMMHHMM>` |
//! | E  | `Z:<ticker>:E` |
//! | D1 | `Z:<ticker>:D:1:<side>:<pos>` |
//! | D3 | `Z:<ticker>:D:3` |
use crate::protocol::enums;
use crate::protocol::enums::Side;
use crate::protocol::parser::scanner;
use crate::protocol::parser::scanner::Scanner;
use crate::protocol::parser::ParseError;
use crate::protocol::types::{AggBookLevel, AggBookOp, BookDelete, ProtocolMessage};
use crate::text;
use crate::wire;
use bytes::Bytes;
use vstd::prelude::*;

verus! {

/// What is wrong with a token that is to be a side.
pub open spec fn bad_side(s: Seq<u8>) -> Option<ParseError> {
    if s.len() != 1 {
        Some(
            ParseError::InvalidField {
                field: "agg book side",
                reason: "expected one byte (A or V)",
            },
        )
    } else if enums::side_of(s[0]) is None {
        Some(
            ParseError::InvalidField {
                field: "agg book side",
                reason: "expected A (buy) or V (sell)",
            },
        )
    } else {
        None
    }
}

/// The fault of a frame whose field `k` is to be a side.
pub open spec fn side_fault(f: Seq<Seq<u8>>, k: nat) -> Option<ParseError> {
    scanner::or_else(scanner::missing(f, k, "side"), bad_side(f[k as int]))
}

/// What is wrong with a level.
pub open spec fn level_fault(f: Seq<Seq<u8>>) -> Option<ParseError> {
    scanner::or_else(
        scanner::u32_fault(f, 3, "position"),
        scanner::or_else(
            side_fault(f, 4),
            scanner::or_else(
                scanner::decimal_fault(f, 5, "price"),
                scanner::or_else(
                    scanner::u64_fault(f, 6, "quantity"),
                    scanner::or_else(
                        scanner::u32_fault(f, 7, "offer count"),
                        scanner::u32_fault(f, 8, "DDMMHHMM"),
                    ),
                ),
            ),
        ),
    )
}

/// `level` is what the fields say.
pub open spec fn is_level(f: Seq<Seq<u8>>, level: AggBookLevel) -> bool {
    &&& level.position == text::number(f[3])
    &&& Some(level.side) == enums::side_of(f[4][0])
    &&& level.price@ == f[5]
    &&& level.quantity == text::number(f[6])
    &&& level.offer_count == text::number(f[7])
    &&& level.timestamp_ddmmhhmm == text::number(f[8])
}

/// What is wrong with a delete.
pub open spec fn delete_fault(f: Seq<Seq<u8>>) -> Option<ParseError> {
    scanner::or_else(
        scanner::missing(f, 3, "delete kind"),
        if f[3] == text::bytes_of("1") {
            scanner::or_else(side_fault(f, 4), scanner::u32_fault(f, 5, "position"))
        } else if f[3] == text::bytes_of("3") {
            None
        } else if f[3] == text::bytes_of("2") {
            Some(
                ParseError::InvalidField {
                    field: "delete kind",
                    reason: "SAB does not accept delete kind 2 (BQT-only)",
                },
            )
        } else {
            Some(ParseError::InvalidField { field: "delete kind", reason: "expected 1 or 3" })
        },
    )
}

/// `d` is the delete that the fields give.
pub open spec fn is_delete(f: Seq<Seq<u8>>, d: BookDelete) -> bool {
    if f[3] == text::bytes_of("1") {
        d matches BookDelete::Single { side, position } && Some(side) == enums::side_of(f[4][0])
            && position == text::number(f[5])
    } else {
        d is ClearAll
    }
}

/// What is wrong with a frame of these fields: the first fault from the left.
pub open spec fn fault(f: Seq<Seq<u8>>) -> Option<ParseError> {
    scanner::or_else(
        scanner::missing(f, 0, "Z header"),
        scanner::or_else(
            scanner::missing(f, 1, "ticker"),
            scanner::or_else(
                scanner::missing(f, 2, "agg book op"),
                if f[2] == text::bytes_of("A") || f[2] == text::bytes_of("U") {
                    level_fault(f)
                } else if f[2] == text::bytes_of("D") {
                    delete_fault(f)
                } else if f[2] == text::bytes_of("E") {
                    None
                } else {
                    Some(
                        ParseError::InvalidField {
                            field: "agg book op",
                            reason: "expected A, U, D, or E",
                        },
                    )
                },
            ),
        ),
    )
}

/// `op` is what the fields say.
pub open spec fn is_operation(f: Seq<Seq<u8>>, op: AggBookOp) -> bool {
    if f[2] == text::bytes_of("A") {
        op matches AggBookOp::Add(level) && is_level(f, level)
    } else if f[2] == text::bytes_of("U") {
        op matches AggBookOp::Update(level) && is_level(f, level)
    } else if f[2] == text::bytes_of("D") {
        op matches AggBookOp::Delete(d) && is_delete(f, d)
    } else {
        op is EndOfInitial
    }
}

/// `msg` is what the fields say.
pub open spec fn is_message(f: Seq<Seq<u8>>, msg: ProtocolMessage) -> bool {
    msg matches ProtocolMessage::AggBook { ticker, op } && wire::content(ticker) == f[1]
        && is_operation(f, op)
}

/// Parses a `SAB` frame.
pub fn parse(frame: Bytes) -> (r: Result<ProtocolMessage, ParseError>)
    ensures
        match r {
            Ok(msg) => fault(scanner::fields(wire::content(frame))) is None && is_message(
                scanner::fields(wire::content(frame)),
                msg,
            ),
            Err(e) => fault(scanner::fields(wire::content(frame))) == Some(e),
        },
{
    let mut scanner = Scanner::new(frame);
    let _header = scanner.required("Z header")?;
    let ticker = scanner.required("ticker")?;
    let op_field = scanner.required("agg book op")?;
    let op_token = wire::as_slice(&op_field);
    proof {
        lemma_letters();
    }
    let op = if text::is_word(op_token, "A") {
        AggBookOp::Add(read_level(&mut scanner)?)
    } else if text::is_word(op_token, "U") {
        AggBookOp::Update(read_level(&mut scanner)?)
    } else if text::is_word(op_token, "D") {
        AggBookOp::Delete(parse_delete(&mut scanner)?)
    } else if text::is_word(op_token, "E") {
        AggBookOp::EndOfInitial
    } else {
        return Err(
            ParseError::InvalidField { field: "agg book op", reason: "expected A, U, D, or E" },
        );
    };
    Ok(ProtocolMessage::AggBook { ticker, op })
}

/// The letters are told apart.
proof fn lemma_letters()
    ensures
        text::bytes_of("A") != text::bytes_of("U"),
        text::bytes_of("A") != text::bytes_of("D"),
        text::bytes_of("A") != text::bytes_of("E"),
        text::bytes_of("U") != text::bytes_of("D"),
        text::bytes_of("U") != text::bytes_of("E"),
        text::bytes_of("D") != text::bytes_of("E"),
{
    reveal_strlit("A");
    reveal_strlit("U");
    reveal_strlit("D");
    reveal_strlit("E");
    text::lemma_one_byte("A", 'A');
    text::lemma_one_byte("U", 'U');
    text::lemma_one_byte("D", 'D');
    text::lemma_one_byte("E", 'E');
    assert(text::bytes_of("A")[0] == 'A' as u8);
    assert(text::bytes_of("U")[0] == 'U' as u8);
    assert(text::bytes_of("D")[0] == 'D' as u8);
    assert(text::bytes_of("E")[0] == 'E' as u8);
}

/// A token as a side.
fn parse_side(b: &Bytes) -> (r: Result<Side, ParseError>)
    ensures
        match r {
            Ok(side) => bad_side(wire::content(*b)) is None && Some(side) == enums::side_of(
                wire::content(*b)[0],
            ),
            Err(e) => bad_side(wire::content(*b)) == Some(e),
        },
{
    let token = wire::as_slice(b);
    if token.len() != 1 {
        return Err(
            ParseError::InvalidField {
                field: "agg book side",
                reason: "expected one byte (A or V)",
            },
        );
    }
    match Side::from_byte(token[0]) {
        Some(side) => Ok(side),
        None => Err(
            ParseError::InvalidField {
                field: "agg book side",
                reason: "expected A (buy) or V (sell)",
            },
        ),
    }
}

/// Reads what follows `A` or `U`.
fn read_level(scanner: &mut Scanner) -> (r: Result<AggBookLevel, ParseError>)
    requires
        old(scanner).wf(),
        old(scanner).consumed() == old(scanner).taken(),
        old(scanner).taken() == 3,
    ensures
        match r {
            Ok(level) => level_fault(old(scanner).fields()) is None && is_level(
                old(scanner).fields(),
                level,
            ),
            Err(e) => level_fault(old(scanner).fields()) == Some(e),
        },
{
    let position = scanner.required_u32("position")?;
    let side_token = scanner.required("side")?;
    let side = parse_side(&side_token)?;
    let price = scanner.required_decimal("price")?;
    let quantity = scanner.required_u64("quantity")?;
    let offer_count = scanner.required_u32("offer count")?;
    let timestamp_ddmmhhmm = scanner.required_u32("DDMMHHMM")?;
    Ok(AggBookLevel { position, side, price, quantity, offer_count, timestamp_ddmmhhmm })
}

/// Reads what follows `D`.
fn parse_delete(scanner: &mut Scanner) -> (r: Result<BookDelete, ParseError>)
    requires
        old(scanner).wf(),
        old(scanner).consumed() == old(scanner).taken(),
        old(scanner).taken() == 3,
    ensures
        match r {
            Ok(d) => delete_fault(old(scanner).fields()) is None && is_delete(
                old(scanner).fields(),
                d,
            ),
            Err(e) => delete_fault(old(scanner).fields()) == Some(e),
        },
{
    let kind_field = scanner.required("delete kind")?;
    let kind = wire::as_slice(&kind_field);
    proof {
        lemma_delete_kinds();
    }
    if text::is_word(kind, "1") {
        let side_token = scanner.required("side")?;
        let side = parse_side(&side_token)?;
        let position = scanner.required_u32("position")?;
        Ok(BookDelete::Single { side, position })
    } else if text::is_word(kind, "3") {
        Ok(BookDelete::ClearAll)
    } else if text::is_word(kind, "2") {
        Err(
            ParseError::InvalidField {
                field: "delete kind",
                reason: "SAB does not accept delete kind 2 (BQT-only)",
            },
        )
    } else {
        Err(ParseError::InvalidField { field: "delete kind", reason: "expected 1 or 3" })
    }
}

/// The kinds of delete are told apart.
proof fn lemma_delete_kinds()
    ensures
        text::bytes_of("1") != text::bytes_of("2"),
        text::bytes_of("1") != text::bytes_of("3"),
        text::bytes_of("2") != text::bytes_of("3"),
{
    reveal_strlit("1");
    reveal_strlit("2");
    reveal_strlit("3");
    text::lemma_one_byte("1", '1');
    text::lemma_one_byte("2", '2');
    text::lemma_one_byte("3", '3');
    assert(text::bytes_of("1")[0] == '1' as u8);
    assert(text::bytes_of("2")[0] == '2' as u8);
    assert(text::bytes_of("3")[0] == '3' as u8);
}

/// The prefix delete never comes out of an aggregated book frame.
pub proof fn law_no_prefix_delete(f: Seq<Seq<u8>>, op: AggBookOp)
    requires
        fault(f) is None,
        is_operation(f, op),
    ensures
        op matches AggBookOp::Delete(d) ==> !(d is PrefixInclusive),
{
}

} // verus!
