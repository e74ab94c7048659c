//! `BQT` detailed book frames.
//!
//! | Op | Fields |
//! |----|--------|
//! | A  | `B:<ticker>:A:<pos>:<side>:<price>:<qty>:<broker>:<DDMMHHMM>[:<order_id>:<offer_type>]` |
//! | U  | `B:<ticker>:U:<new_pos>:<old_pos>:<side>:<price>:<qty>:<broker>:<DDMMHHMM>[:<order_id>:<offer_type>]` |
//! | E  | `B:<ticker>:E` |
//! | D1 | `B:<ticker>:D:1:<side>:<pos>` |
//! | D2 | `B:<ticker>:D:2:<side>:<pos>` |
//! | D3 | `B:<ticker>:D:3` (no side, no position: clears everything) |
//!
//! The order id and the offer type come together or not at all: older feeds
//! leave them out.
use crate::protocol::enums;
use crate::protocol::enums::Side;
use crate::protocol::parser::scanner;
use crate::protocol::parser::scanner::Scanner;
use crate::protocol::parser::ParseError;
use crate::protocol::types::{BookDelete, BookEntry, BookOp, ProtocolMessage};
use crate::text;
use crate::wire;
use bytes::Bytes;
use vstd::prelude::*;

verus! {

/// What is wrong with a token that is to be a side.
pub open spec fn bad_side(s: Seq<u8>) -> Option<ParseError> {
    if s.len() != 1 {
        Some(
            ParseError::InvalidField { field: "book side", reason: "expected one byte (A or V)" },
        )
    } else if enums::side_of(s[0]) is None {
        Some(
            ParseError::InvalidField { field: "book side", reason: "expected A (buy) or V (sell)" },
        )
    } else {
        None
    }
}

/// The fault of a frame whose field `k` is to be a side.
pub open spec fn side_fault(f: Seq<Seq<u8>>, k: nat) -> Option<ParseError> {
    scanner::or_else(scanner::missing(f, k, "side"), bad_side(f[k as int]))
}

/// What is wrong with the optional pair of order id and offer type, which
/// begins at field `k`.
pub open spec fn order_fault(f: Seq<Seq<u8>>, k: nat) -> Option<ParseError> {
    if k >= f.len() {
        None
    } else {
        scanner::or_else(
            scanner::missing(f, k + 1, "offer type"),
            if f[k as int + 1].len() == 1 {
                None
            } else {
                Some(
                    ParseError::InvalidField {
                        field: "offer type",
                        reason: "expected one byte (L or O)",
                    },
                )
            },
        )
    }
}

/// What is wrong with an entry whose side is field `k`.
pub open spec fn entry_fault(f: Seq<Seq<u8>>, k: nat) -> Option<ParseError> {
    scanner::or_else(
        side_fault(f, k),
        scanner::or_else(
            scanner::decimal_fault(f, k + 1, "price"),
            scanner::or_else(
                scanner::u64_fault(f, k + 2, "quantity"),
                scanner::or_else(
                    scanner::u32_fault(f, k + 3, "broker id"),
                    scanner::or_else(
                        scanner::u32_fault(f, k + 4, "DDMMHHMM"),
                        order_fault(f, k + 5),
                    ),
                ),
            ),
        ),
    )
}

/// `e` is the entry whose side is field `k`.
pub open spec fn is_entry(f: Seq<Seq<u8>>, k: int, position: u32, e: BookEntry) -> bool {
    &&& e.position == position
    &&& Some(e.side) == enums::side_of(f[k][0])
    &&& e.price@ == f[k + 1]
    &&& e.quantity == text::number(f[k + 2])
    &&& e.broker_id == text::number(f[k + 3])
    &&& e.timestamp_ddmmhhmm == text::number(f[k + 4])
    &&& match e.order_id {
        Some(id) => k + 5 < f.len() && wire::content(id) == f[k + 5] && e.offer_type == Some(
            f[k + 6][0],
        ),
        None => k + 5 >= f.len() && e.offer_type is None,
    }
}

/// What is wrong with a delete.
pub open spec fn delete_fault(f: Seq<Seq<u8>>) -> Option<ParseError> {
    scanner::or_else(
        scanner::missing(f, 3, "delete kind"),
        if f[3] == text::bytes_of("1") || f[3] == text::bytes_of("2") {
            scanner::or_else(side_fault(f, 4), scanner::u32_fault(f, 5, "position"))
        } else if f[3] == text::bytes_of("3") {
            None
        } else {
            Some(
                ParseError::InvalidField { field: "delete kind", reason: "expected 1, 2 or 3" },
            )
        },
    )
}

/// `d` is the delete that the fields give.
pub open spec fn is_delete(f: Seq<Seq<u8>>, d: BookDelete) -> bool {
    if f[3] == text::bytes_of("1") {
        d matches BookDelete::Single { side, position } && Some(side) == enums::side_of(f[4][0])
            && position == text::number(f[5])
    } else if f[3] == text::bytes_of("2") {
        d matches BookDelete::PrefixInclusive { side, position } && Some(side) == enums::side_of(
            f[4][0],
        ) && position == text::number(f[5])
    } else {
        d is ClearAll
    }
}

/// What is wrong with a frame of these fields: the first fault from the left.
pub open spec fn fault(f: Seq<Seq<u8>>) -> Option<ParseError> {
    scanner::or_else(
        scanner::missing(f, 0, "B header"),
        scanner::or_else(
            scanner::missing(f, 1, "ticker"),
            scanner::or_else(
                scanner::missing(f, 2, "book op"),
                if f[2] == text::bytes_of("A") {
                    scanner::or_else(scanner::u32_fault(f, 3, "position"), entry_fault(f, 4))
                } else if f[2] == text::bytes_of("U") {
                    scanner::or_else(
                        scanner::u32_fault(f, 3, "new position"),
                        scanner::or_else(
                            scanner::u32_fault(f, 4, "old position"),
                            entry_fault(f, 5),
                        ),
                    )
                } else if f[2] == text::bytes_of("D") {
                    delete_fault(f)
                } else if f[2] == text::bytes_of("E") {
                    None
                } else {
                    Some(
                        ParseError::InvalidField {
                            field: "book op",
                            reason: "expected A, U, D, or E",
                        },
                    )
                },
            ),
        ),
    )
}

/// `op` is what the fields say.
pub open spec fn is_operation(f: Seq<Seq<u8>>, op: BookOp) -> bool {
    if f[2] == text::bytes_of("A") {
        op matches BookOp::Add(e) && is_entry(f, 4, text::number(f[3]) as u32, e)
    } else if f[2] == text::bytes_of("U") {
        op matches BookOp::Update { old_pos, entry } && old_pos == text::number(f[4]) && is_entry(
            f,
            5,
            text::number(f[3]) as u32,
            entry,
        )
    } else if f[2] == text::bytes_of("D") {
        op matches BookOp::Delete(d) && is_delete(f, d)
    } else {
        op is EndOfInitial
    }
}

/// `msg` is what the fields say.
pub open spec fn is_message(f: Seq<Seq<u8>>, msg: ProtocolMessage) -> bool {
    msg matches ProtocolMessage::Book { ticker, op } && wire::content(ticker) == f[1]
        && is_operation(f, op)
}

/// Parses a `BQT` frame.
pub fn parse(frame: Bytes) -> (r: Result<ProtocolMessage, ParseError>)
    ensures
        match r {
            Ok(msg) => fault(scanner::fields(wire::content(frame))) is None && is_message(
                scanner::fields(wire::content(frame)),
                msg,
            ),
            Err(e) => fault(scanner::fields(wire::content(frame))) == Some(e),
        },
{
    let mut scanner = Scanner::new(frame);
    let _header = scanner.required("B header")?;
    let ticker = scanner.required("ticker")?;
    let op_field = scanner.required("book op")?;
    let op_token = wire::as_slice(&op_field);
    proof {
        lemma_letters();
    }
    let op = if text::is_word(op_token, "A") {
        parse_add(&mut scanner)?
    } else if text::is_word(op_token, "U") {
        parse_update(&mut scanner)?
    } else if text::is_word(op_token, "D") {
        parse_delete(&mut scanner)?
    } else if text::is_word(op_token, "E") {
        BookOp::EndOfInitial
    } else {
        return Err(
            ParseError::InvalidField { field: "book op", reason: "expected A, U, D, or E" },
        );
    };
    Ok(ProtocolMessage::Book { ticker, op })
}

/// The letters are told apart.
proof fn lemma_letters()
    ensures
        text::bytes_of("A") != text::bytes_of("U"),
        text::bytes_of("A") != text::bytes_of("D"),
        text::bytes_of("A") != text::bytes_of("E"),
        text::bytes_of("U") != text::bytes_of("D"),
        text::bytes_of("U") != text::bytes_of("E"),
        text::bytes_of("D") != text::bytes_of("E"),
{
    reveal_strlit("A");
    reveal_strlit("U");
    reveal_strlit("D");
    reveal_strlit("E");
    text::lemma_one_byte("A", 'A');
    text::lemma_one_byte("U", 'U');
    text::lemma_one_byte("D", 'D');
    text::lemma_one_byte("E", 'E');
    assert(text::bytes_of("A")[0] == 'A' as u8);
    assert(text::bytes_of("U")[0] == 'U' as u8);
    assert(text::bytes_of("D")[0] == 'D' as u8);
    assert(text::bytes_of("E")[0] == 'E' as u8);
}

/// A token as a side.
fn parse_side(b: &Bytes) -> (r: Result<Side, ParseError>)
    ensures
        match r {
            Ok(side) => bad_side(wire::content(*b)) is None && Some(side) == enums::side_of(
                wire::content(*b)[0],
            ),
            Err(e) => bad_side(wire::content(*b)) == Some(e),
        },
{
    let token = wire::as_slice(b);
    if token.len() != 1 {
        return Err(
            ParseError::InvalidField { field: "book side", reason: "expected one byte (A or V)" },
        );
    }
    match Side::from_byte(token[0]) {
        Some(side) => Ok(side),
        None => Err(
            ParseError::InvalidField { field: "book side", reason: "expected A (buy) or V (sell)" },
        ),
    }
}

/// Reads what follows `A`.
fn parse_add(scanner: &mut Scanner) -> (r: Result<BookOp, ParseError>)
    requires
        old(scanner).wf(),
        old(scanner).consumed() == old(scanner).taken(),
        old(scanner).taken() == 3,
    ensures
        match r {
            Ok(op) => {
                let f = old(scanner).fields();
                &&& scanner::u32_fault(f, 3, "position") is None
                &&& entry_fault(f, 4) is None
                &&& op matches BookOp::Add(e)
                &&& is_entry(f, 4, text::number(f[3]) as u32, e)
            },
            Err(e) => scanner::or_else(
                scanner::u32_fault(old(scanner).fields(), 3, "position"),
                entry_fault(old(scanner).fields(), 4),
            ) == Some(e),
        },
{
    let position = scanner.required_u32("position")?;
    let entry = read_entry_tail(scanner, position)?;
    Ok(BookOp::Add(entry))
}

/// Reads what follows `U`.
fn parse_update(scanner: &mut Scanner) -> (r: Result<BookOp, ParseError>)
    requires
        old(scanner).wf(),
        old(scanner).consumed() == old(scanner).taken(),
        old(scanner).taken() == 3,
    ensures
        match r {
            Ok(op) => {
                let f = old(scanner).fields();
                &&& scanner::u32_fault(f, 3, "new position") is None
                &&& scanner::u32_fault(f, 4, "old position") is None
                &&& entry_fault(f, 5) is None
                &&& op matches BookOp::Update { old_pos, entry }
                &&& old_pos == text::number(f[4])
                &&& is_entry(f, 5, text::number(f[3]) as u32, entry)
            },
            Err(e) => scanner::or_else(
                scanner::u32_fault(old(scanner).fields(), 3, "new position"),
                scanner::or_else(
                    scanner::u32_fault(old(scanner).fields(), 4, "old position"),
                    entry_fault(old(scanner).fields(), 5),
                ),
            ) == Some(e),
        },
{
    let new_pos = scanner.required_u32("new position")?;
    let old_pos = scanner.required_u32("old position")?;
    let entry = read_entry_tail(scanner, new_pos)?;
    Ok(BookOp::Update { old_pos, entry })
}

/// Reads `<side>:<price>:<qty>:<broker>:<DDMMHHMM>[:<order_id>:<offer_type>]`
/// into an entry at `position`.
fn read_entry_tail(scanner: &mut Scanner, position: u32) -> (r: Result<BookEntry, ParseError>)
    requires
        old(scanner).wf(),
        old(scanner).consumed() == old(scanner).taken(),
    ensures
        match r {
            Ok(e) => entry_fault(old(scanner).fields(), old(scanner).taken()) is None && is_entry(
                old(scanner).fields(),
                old(scanner).taken() as int,
                position,
                e,
            ),
            Err(e) => entry_fault(old(scanner).fields(), old(scanner).taken()) == Some(e),
        },
{
    let side_token = scanner.required("side")?;
    let side = parse_side(&side_token)?;
    let price = scanner.required_decimal("price")?;
    let quantity = scanner.required_u64("quantity")?;
    let broker_id = scanner.required_u32("broker id")?;
    let timestamp_ddmmhhmm = scanner.required_u32("DDMMHHMM")?;
    let (order_id, offer_type): (Option<Bytes>, Option<u8>) = match scanner.next() {
        None => (None, None),
        Some(id) => {
            let type_field = scanner.required("offer type")?;
            let type_token = wire::as_slice(&type_field);
            if type_token.len() != 1 {
                return Err(
                    ParseError::InvalidField {
                        field: "offer type",
                        reason: "expected one byte (L or O)",
                    },
                );
            }
            (Some(id), Some(type_token[0]))
        },
    };
    Ok(
        BookEntry {
            position,
            side,
            price,
            quantity,
            broker_id,
            timestamp_ddmmhhmm,
            order_id,
            offer_type,
        },
    )
}

/// Reads what follows `D`.
fn parse_delete(scanner: &mut Scanner) -> (r: Result<BookOp, ParseError>)
    requires
        old(scanner).wf(),
        old(scanner).consumed() == old(scanner).taken(),
        old(scanner).taken() == 3,
    ensures
        match r {
            Ok(op) => {
                &&& delete_fault(old(scanner).fields()) is None
                &&& op matches BookOp::Delete(d)
                &&& is_delete(old(scanner).fields(), d)
            },
            Err(e) => delete_fault(old(scanner).fields()) == Some(e),
        },
{
    let kind_field = scanner.required("delete kind")?;
    let kind = wire::as_slice(&kind_field);
    proof {
        lemma_delete_kinds();
    }
    if text::is_word(kind, "1") {
        let side_token = scanner.required("side")?;
        let side = parse_side(&side_token)?;
        let position = scanner.required_u32("position")?;
        Ok(BookOp::Delete(BookDelete::Single { side, position }))
    } else if text::is_word(kind, "2") {
        let side_token = scanner.required("side")?;
        let side = parse_side(&side_token)?;
        let position = scanner.required_u32("position")?;
        Ok(BookOp::Delete(BookDelete::PrefixInclusive { side, position }))
    } else if text::is_word(kind, "3") {
        Ok(BookOp::Delete(BookDelete::ClearAll))
    } else {
        Err(ParseError::InvalidField { field: "delete kind", reason: "expected 1, 2 or 3" })
    }
}

/// The kinds of delete are told apart.
proof fn lemma_delete_kinds()
    ensures
        text::bytes_of("1") != text::bytes_of("2"),
        text::bytes_of("1") != text::bytes_of("3"),
        text::bytes_of("2") != text::bytes_of("3"),
{
    reveal_strlit("1");
    reveal_strlit("2");
    reveal_strlit("3");
    text::lemma_one_byte("1", '1');
    text::lemma_one_byte("2", '2');
    text::lemma_one_byte("3", '3');
    assert(text::bytes_of("1")[0] == '1' as u8);
    assert(text::bytes_of("2")[0] == '2' as u8);
    assert(text::bytes_of("3")[0] == '3' as u8);
}

} // verus!
