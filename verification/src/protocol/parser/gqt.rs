//! `GQT` trade frames.
//!
//! - `V:<ticker>:A:...` adds a trade: nine fields after `A` on a subscription,
//!   ten on a snapshot, where the request id stands before the condition. The
//!   two are told apart by their count.
//! - `V:<ticker>:D:<trade_id>` takes a trade back.
//! - `V:<ticker>:R` removes every trade of the ticker.
//! - `V:<ticker>:E` ends a subscription's snapshot, `V:<ticker>:E:<request_id>`
//!   a one-shot one.
use crate::protocol::enums;
use crate::protocol::enums::{TradeAggressor, TradeCondition};
use crate::protocol::parser::scanner;
use crate::protocol::parser::scanner::Scanner;
use crate::protocol::parser::ParseError;
use crate::protocol::types::{ProtocolMessage, Trade, TradeOperation};
use crate::text;
use crate::wire;
use bytes::Bytes;
use vstd::prelude::*;

verus! {

/// How many fields an added trade has, of the fields behind `A`: all, but for
/// an empty last one behind the ninth (a dangling colon).
pub open spec fn width(t: Seq<Seq<u8>>) -> nat {
    if t.len() > 9 && t.last().len() == 0 {
        (t.len() - 1) as nat
    } else {
        t.len()
    }
}

/// Field `k` of a trade in the subscription layout. On a snapshot the request
/// id, at index 6, is passed over.
pub open spec fn column(t: Seq<Seq<u8>>, k: int) -> Seq<u8> {
    if width(t) == 10 && k >= 6 {
        t[k + 1]
    } else {
        t[k]
    }
}

/// What is wrong with a token that is to be one byte.
pub open spec fn bad_byte(s: Seq<u8>, field: &'static str) -> Option<ParseError> {
    if s.len() == 1 {
        None
    } else {
        Some(ParseError::InvalidField { field, reason: "expected exactly one byte" })
    }
}

/// What is wrong with an added trade, given the fields behind `A`.
pub open spec fn add_fault(t: Seq<Seq<u8>>) -> Option<ParseError> {
    if width(t) != 9 && width(t) != 10 {
        Some(
            ParseError::InvalidField {
                field: "trade fields",
                reason: "expected 9 (subscribe) or 10 (snapshot) fields after A",
            },
        )
    } else {
        scanner::or_else(
            scanner::bad_unsigned(column(t, 0), u32::MAX as nat, "trade time"),
            scanner::or_else(
                scanner::bad_decimal(column(t, 1), "trade price"),
                scanner::or_else(
                    scanner::bad_unsigned(column(t, 2), u32::MAX as nat, "trade broker buy"),
                    scanner::or_else(
                        scanner::bad_unsigned(column(t, 3), u32::MAX as nat, "trade broker sell"),
                        scanner::or_else(
                            scanner::bad_unsigned(column(t, 4), u64::MAX as nat, "trade quantity"),
                            scanner::or_else(
                                scanner::bad_unsigned(column(t, 6), u16::MAX as nat, "trade condition"),
                                bad_byte(column(t, 7), "trade aggressor"),
                            ),
                        ),
                    ),
                ),
            ),
        )
    }
}

/// `trade` is what the fields behind `A` say.
pub open spec fn is_trade(t: Seq<Seq<u8>>, trade: Trade) -> bool {
    &&& trade.operation_code == 'A' as u8
    &&& trade.time_hhmmss == text::number(column(t, 0))
    &&& trade.price@ == column(t, 1)
    &&& trade.broker_buy_id == text::number(column(t, 2))
    &&& trade.broker_sell_id == text::number(column(t, 3))
    &&& trade.quantity == text::number(column(t, 4))
    &&& wire::content(trade.trade_id) == column(t, 5)
    &&& match trade.request_id {
        Some(id) => width(t) == 10 && wire::content(id) == t[6],
        None => width(t) == 9,
    }
    &&& trade.condition == enums::condition_of(text::number(column(t, 6)) as u16)
    &&& trade.aggressor == enums::aggressor_of(column(t, 7)[0])
    &&& wire::content(trade.original_conditions) == column(t, 8)
}

/// What is wrong with a frame of these fields: the first fault from the left.
pub open spec fn fault(f: Seq<Seq<u8>>) -> Option<ParseError> {
    scanner::or_else(
        scanner::missing(f, 0, "V header"),
        scanner::or_else(
            scanner::missing(f, 1, "ticker"),
            scanner::or_else(
                scanner::missing(f, 2, "trade op"),
                if f[2] == text::bytes_of("A") {
                    add_fault(f.skip(3))
                } else if f[2] == text::bytes_of("D") {
                    scanner::missing(f, 3, "trade id")
                } else if f[2] == text::bytes_of("R") || f[2] == text::bytes_of("E") {
                    None
                } else {
                    Some(
                        ParseError::InvalidField {
                            field: "trade op",
                            reason: "expected A, D, R or E",
                        },
                    )
                },
            ),
        ),
    )
}

/// `op` is what the fields say.
pub open spec fn is_operation(f: Seq<Seq<u8>>, op: TradeOperation) -> bool {
    if f[2] == text::bytes_of("A") {
        op matches TradeOperation::Add(trade) && is_trade(f.skip(3), trade)
    } else if f[2] == text::bytes_of("D") {
        op matches TradeOperation::Delete { trade_id } && wire::content(trade_id) == f[3]
    } else if f[2] == text::bytes_of("R") {
        op is RemoveAll
    } else if f.len() > 3 && f[3].len() > 0 {
        op matches TradeOperation::EndOfSnapshot { request_id } && wire::content(request_id) == f[3]
    } else {
        op is EndOfSubscribe
    }
}

/// `msg` is what the fields say.
pub open spec fn is_message(f: Seq<Seq<u8>>, msg: ProtocolMessage) -> bool {
    msg matches ProtocolMessage::Trade { ticker, op } && wire::content(ticker) == f[1]
        && is_operation(f, op)
}

/// Parses a `GQT` frame.
pub fn parse(frame: Bytes) -> (r: Result<ProtocolMessage, ParseError>)
    ensures
        match r {
            Ok(msg) => fault(scanner::fields(wire::content(frame))) is None && is_message(
                scanner::fields(wire::content(frame)),
                msg,
            ),
            Err(e) => fault(scanner::fields(wire::content(frame))) == Some(e),
        },
{
    let mut scanner = Scanner::new(frame);
    let _header = scanner.required("V header")?;
    let ticker = scanner.required("ticker")?;
    let op_field = scanner.required("trade op")?;
    let op_token = wire::as_slice(&op_field);
    proof {
        lemma_op_letters();
    }
    let op = if text::is_word(op_token, "A") {
        parse_add(&mut scanner, op_token[0])?
    } else if text::is_word(op_token, "D") {
        let trade_id = scanner.required("trade id")?;
        TradeOperation::Delete { trade_id }
    } else if text::is_word(op_token, "R") {
        TradeOperation::RemoveAll
    } else if text::is_word(op_token, "E") {
        match scanner.next() {
            None => TradeOperation::EndOfSubscribe,
            Some(request_id) => if wire::as_slice(&request_id).len() == 0 {
                TradeOperation::EndOfSubscribe
            } else {
                TradeOperation::EndOfSnapshot { request_id }
            },
        }
    } else {
        return Err(
            ParseError::InvalidField { field: "trade op", reason: "expected A, D, R or E" },
        );
    };
    Ok(ProtocolMessage::Trade { ticker, op })
}

/// The operation letters are told apart, and `A` is one byte.
proof fn lemma_op_letters()
    ensures
        text::bytes_of("A") == seq!['A' as u8],
        text::bytes_of("D") != text::bytes_of("A"),
        text::bytes_of("R") != text::bytes_of("A"),
        text::bytes_of("R") != text::bytes_of("D"),
        text::bytes_of("E") != text::bytes_of("A"),
        text::bytes_of("E") != text::bytes_of("D"),
        text::bytes_of("E") != text::bytes_of("R"),
{
    reveal_strlit("A");
    reveal_strlit("D");
    reveal_strlit("R");
    reveal_strlit("E");
    text::lemma_one_byte("A", 'A');
    text::lemma_one_byte("D", 'D');
    text::lemma_one_byte("R", 'R');
    text::lemma_one_byte("E", 'E');
    assert(text::bytes_of("A")[0] == 'A' as u8);
    assert(text::bytes_of("D")[0] == 'D' as u8);
    assert(text::bytes_of("R")[0] == 'R' as u8);
    assert(text::bytes_of("E")[0] == 'E' as u8);
}

/// Reads the fields of an added trade.
fn parse_add(scanner: &mut Scanner, op_byte: u8) -> (r: Result<TradeOperation, ParseError>)
    requires
        old(scanner).wf(),
        old(scanner).consumed() == old(scanner).taken(),
        old(scanner).taken() <= old(scanner).fields().len(),
        op_byte == 'A' as u8,
    ensures
        match r {
            Ok(op) => {
                let t = old(scanner).fields().skip(old(scanner).taken() as int);
                &&& add_fault(t) is None
                &&& op matches TradeOperation::Add(trade)
                &&& is_trade(t, trade)
            },
            Err(e) => add_fault(old(scanner).fields().skip(old(scanner).taken() as int)) == Some(e),
        },
{
    let ghost start = old(scanner).taken();
    let ghost f = old(scanner).fields();
    let ghost t = f.skip(start as int);
    let mut fields: Vec<Bytes> = Vec::with_capacity(10);
    loop
        invariant_except_break
            scanner.wf(),
            scanner.fields() == f,
            start <= f.len(),
            t == f.skip(start as int),
            fields@.len() <= t.len(),
            scanner.taken() == start + fields@.len(),
        invariant
            fields@.len() <= t.len(),
            forall|i: int|
                0 <= i < fields@.len() ==> wire::content(#[trigger] fields@[i]) == t[i],
        ensures
            fields@.len() == t.len(),
        decreases t.len() - fields@.len(),
    {
        match scanner.next() {
            Some(token) => {
                fields.push(token);
            },
            None => {
                break;
            },
        }
    }
    // A dangling colon behind the ninth field or a later one.
    if fields.len() > 9 && wire::as_slice(&fields[fields.len() - 1]).len() == 0 {
        let _empty = fields.pop();
    }
    assert(fields@.len() == width(t));
    let request_id: Option<Bytes> = if fields.len() == 9 {
        None
    } else if fields.len() == 10 {
        Some(fields.remove(6))
    } else {
        return Err(
            ParseError::InvalidField {
                field: "trade fields",
                reason: "expected 9 (subscribe) or 10 (snapshot) fields after A",
            },
        );
    };
    assert forall|i: int| 0 <= i < 9 implies wire::content(#[trigger] fields@[i]) == column(
        t,
        i,
    ) by {}
    let time_hhmmss = scanner::parse_u32(wire::as_slice(&fields[0]), "trade time")?;
    let price = scanner::parse_decimal(&fields[1], "trade price")?;
    let broker_buy_id = scanner::parse_u32(wire::as_slice(&fields[2]), "trade broker buy")?;
    let broker_sell_id = scanner::parse_u32(wire::as_slice(&fields[3]), "trade broker sell")?;
    let quantity = scanner::parse_u64(wire::as_slice(&fields[4]), "trade quantity")?;
    let trade_id = fields[5].clone();
    let condition_code = scanner::parse_u16(wire::as_slice(&fields[6]), "trade condition")?;
    let aggressor_byte = single_byte(&fields[7], "trade aggressor")?;
    let original_conditions = fields[8].clone();
    Ok(
        TradeOperation::Add(
            Trade {
                operation_code: op_byte,
                time_hhmmss,
                price,
                broker_buy_id,
                broker_sell_id,
                quantity,
                trade_id,
                request_id,
                condition: TradeCondition::from_code(condition_code),
                aggressor: TradeAggressor::from_byte(aggressor_byte),
                original_conditions,
            },
        ),
    )
}

/// The one byte of a token.
fn single_byte(b: &Bytes, field: &'static str) -> (r: Result<u8, ParseError>)
    ensures
        match r {
            Ok(x) => bad_byte(wire::content(*b), field) is None && x == wire::content(*b)[0],
            Err(e) => bad_byte(wire::content(*b), field) == Some(e),
        },
{
    let token = wire::as_slice(b);
    if token.len() != 1 {
        return Err(ParseError::InvalidField { field, reason: "expected exactly one byte" });
    }
    Ok(token[0])
}

/// A trade is never mistaken: a snapshot carries its request id and a
/// subscription has none, whatever the other fields hold.
pub proof fn law_request_id_marks_snapshots(t: Seq<Seq<u8>>, trade: Trade)
    requires
        add_fault(t) is None,
        is_trade(t, trade),
    ensures
        trade.request_id is Some <==> width(t) == 10,
        trade.request_id is None <==> width(t) == 9,
{
}

} // verus!
