//! `SQT` quote frames: `T:<ticker>:<HHMMSS>:<idx>:<val>:<idx>:<val>:...`
//!
//! The first frame after a subscription carries every index, later ones only
//! those that changed. What a value is depends on its index, see [`wire_type`].
use crate::protocol::enums;
use crate::protocol::parser::scanner;
use crate::protocol::parser::scanner::Scanner;
use crate::protocol::parser::ParseError;
use crate::protocol::types::{ProtocolMessage, QuoteDiff, QuoteFieldId, QuoteFieldValue};
use crate::text;
use crate::wire;
use bytes::Bytes;
use vstd::prelude::*;

verus! {

/// What the server sends for a quote index.
#[derive(Debug, Clone, Copy, PartialEq, Eq, Structural)]
pub enum FieldType {
    Float,
    Int,
    /// HHMMSS (six digits, possibly missing leading zero).
    Time,
    /// `HHMMSSmmm` (nine digits, milliseconds last).
    TimeMs,
    /// YYYYMMDD.
    Date,
    /// YYYYMMDDHHMMSS.
    DateTime,
    /// One ASCII character (status flag, direction).
    Char,
    /// A phase code of one or two characters.
    Phase,
    /// Free-form bytes.
    Str,
}

/// The type of a quote index. An index that is not listed is a float, as most
/// are.
pub open spec fn wire_type(idx: u16) -> FieldType {
    match idx {
        0 | 5 | 15 | 16 | 58 | 59 => FieldType::Time,
        142 | 143 | 144 | 145 => FieldType::TimeMs,
        1 | 54 | 64 | 87 | 129 | 141 | 154 | 208 => FieldType::Date,
        50 | 51 | 125 => FieldType::DateTime,
        6 | 7 | 8 | 9 | 19 | 20 | 44 | 45 | 46 | 49 | 57 | 60 | 61 | 62 | 63 | 65 | 67 | 84 | 100
        | 101 | 102 | 110 | 111 | 113 | 114 | 115 | 118 | 119 | 130 | 136 | 137 | 138 | 203 | 205
        | 209 | 213 => FieldType::Int,
        88 => FieldType::Phase,
        56 | 72 | 74 | 106 => FieldType::Char,
        47 | 48 | 52 | 53 | 66 | 81 | 96 | 105 | 109 | 116 | 117 | 122 | 126 | 139 | 204 | 206
        | 207 | 214 | 215 => FieldType::Str,
        _ => FieldType::Float,
    }
}

/// The type of a quote index.
pub fn field_type(idx: u16) -> (r: FieldType)
    ensures
        r == wire_type(idx),
{
    match idx {
        // Timestamps.
        0 | 5 | 15 | 16 | 58 | 59 => FieldType::Time,
        142 | 143 | 144 | 145 => FieldType::TimeMs,
        // Dates.
        1 | 54 | 64 | 87 | 129 | 141 | 154 | 208 => FieldType::Date,
        50 | 51 | 125 => FieldType::DateTime,
        // Counts, quantities, codes, status enums.
        6 | 7 | 8 | 9 | 19 | 20 | 44 | 45 | 46 | 49 | 57 | 60 | 61 | 62 | 63 | 65 | 67 | 84 | 100
        | 101 | 102 | 110 | 111 | 113 | 114 | 115 | 118 | 119 | 130 | 136 | 137 | 138 | 203 | 205
        | 209 | 213 => FieldType::Int,
        // Phase code.
        88 => FieldType::Phase,
        // Flags of one character.
        56 | 72 | 74 | 106 => FieldType::Char,
        // Strings.
        47 | 48 | 52 | 53 | 66 | 81 | 96 | 105 | 109 | 116 | 117 | 122 | 126 | 139 | 204 | 206
        | 207 | 214 | 215 => FieldType::Str,
        _ => FieldType::Float,
    }
}

/// What is wrong with a value of quote index `idx`.
pub open spec fn value_fault(idx: u16, raw: Seq<u8>) -> Option<ParseError> {
    match wire_type(idx) {
        FieldType::Float => scanner::bad_decimal(raw, "quote float"),
        FieldType::Int => scanner::bad_i64(raw, "quote int"),
        FieldType::Time => scanner::bad_unsigned(raw, u32::MAX as nat, "quote time"),
        FieldType::TimeMs => scanner::bad_unsigned(raw, u32::MAX as nat, "quote time-ms"),
        FieldType::Date => scanner::bad_unsigned(raw, u32::MAX as nat, "quote date"),
        FieldType::DateTime => scanner::bad_unsigned(raw, u64::MAX as nat, "quote datetime"),
        FieldType::Char => if raw.len() == 1 {
            None
        } else {
            Some(
                ParseError::InvalidField {
                    field: "quote char",
                    reason: "expected exactly one byte",
                },
            )
        },
        FieldType::Phase => None,
        FieldType::Str => None,
    }
}

/// `v` is the value of quote index `idx` that `raw` spells.
pub open spec fn is_value(idx: u16, raw: Seq<u8>, v: QuoteFieldValue) -> bool {
    match wire_type(idx) {
        FieldType::Float => v matches QuoteFieldValue::Float(d) && d@ == raw,
        FieldType::Int => v matches QuoteFieldValue::Int(n) && n == scanner::signed_number(raw),
        FieldType::Time => v matches QuoteFieldValue::Time(n) && n == text::number(raw),
        FieldType::TimeMs => v matches QuoteFieldValue::Time(n) && n == text::number(raw),
        FieldType::Date => v matches QuoteFieldValue::Date(n) && n == text::number(raw),
        FieldType::DateTime => v matches QuoteFieldValue::DateTime(n) && n == text::number(raw),
        FieldType::Char => v matches QuoteFieldValue::Char(c) && c == raw[0],
        FieldType::Phase => v matches QuoteFieldValue::Phase(b) && b@ == enums::two_bytes(raw),
        FieldType::Str => v matches QuoteFieldValue::Str(b) && wire::content(b) == raw,
    }
}

/// Field `k` is no index: the frame ends there, or with a dangling colon.
pub open spec fn ends_at(f: Seq<Seq<u8>>, k: nat) -> bool {
    k >= f.len() || f[k as int].len() == 0
}

/// What is wrong with the pairs from field `k` on: the first fault.
pub open spec fn pairs_fault(f: Seq<Seq<u8>>, k: nat) -> Option<ParseError>
    decreases f.len() + 1 - k,
{
    if ends_at(f, k) {
        None
    } else {
        scanner::or_else(
            scanner::bad_unsigned(f[k as int], u16::MAX as nat, "quote index"),
            scanner::or_else(
                scanner::missing(f, k + 1, "quote value"),
                scanner::or_else(
                    value_fault(text::number(f[k as int]) as u16, f[k as int + 1]),
                    pairs_fault(f, k + 2),
                ),
            ),
        )
    }
}

/// How many pairs follow from field `k` on.
pub open spec fn pair_count(f: Seq<Seq<u8>>, k: nat) -> nat
    decreases f.len() + 1 - k,
{
    if ends_at(f, k) {
        0
    } else {
        1 + pair_count(f, k + 2)
    }
}

/// Pair `i` of the diff is what fields `3 + 2 * i` and the one after it say.
pub open spec fn is_pair(f: Seq<Seq<u8>>, diff: QuoteDiff, i: int) -> bool {
    &&& diff@[i].0.0 == text::number(f[3 + 2 * i])
    &&& is_value(diff@[i].0.0, f[4 + 2 * i], diff@[i].1)
}

/// What is wrong with a frame of these fields: the first fault from the left.
pub open spec fn fault(f: Seq<Seq<u8>>) -> Option<ParseError> {
    scanner::or_else(
        scanner::missing(f, 0, "T header"),
        scanner::or_else(
            scanner::missing(f, 1, "ticker"),
            scanner::or_else(
                scanner::u32_fault(f, 2, "HHMMSS"),
                pairs_fault(f, 3),
            ),
        ),
    )
}

/// `msg` is what the fields say.
pub open spec fn is_message(f: Seq<Seq<u8>>, msg: ProtocolMessage) -> bool {
    msg matches ProtocolMessage::Quote { ticker, time_hhmmss, diff } && wire::content(ticker)
        == f[1] && time_hhmmss == text::number(f[2]) && diff@.len() == pair_count(f, 3)
        && forall|i: int| 0 <= i < diff@.len() ==> #[trigger] is_pair(f, diff, i)
}

/// Parses a `SQT` frame.
pub fn parse(frame: Bytes) -> (r: Result<ProtocolMessage, ParseError>)
    ensures
        match r {
            Ok(msg) => fault(scanner::fields(wire::content(frame))) is None && is_message(
                scanner::fields(wire::content(frame)),
                msg,
            ),
            Err(e) => fault(scanner::fields(wire::content(frame))) == Some(e),
        },
{
    let mut scanner = Scanner::new(frame);
    let ghost f = scanner.fields();
    let _header = scanner.required("T header")?;
    let ticker = scanner.required("ticker")?;
    let time_hhmmss = scanner.required_u32("HHMMSS")?;
    let mut diff: QuoteDiff = Vec::with_capacity(8);
    loop
        invariant_except_break
            scanner.wf(),
            scanner.fields() == f,
            scanner.taken() == 3 + 2 * diff@.len(),
            scanner.consumed() == scanner.taken(),
            f == scanner::fields(wire::content(frame)),
            f.len() >= 3 + 2 * diff@.len(),
            fault(f) == pairs_fault(f, 3 + 2 * diff@.len()),
            pair_count(f, 3) == diff@.len() + pair_count(f, 3 + 2 * diff@.len()),
        invariant
            forall|i: int| 0 <= i < diff@.len() ==> #[trigger] is_pair(f, diff, i),
        ensures
            pairs_fault(f, 3 + 2 * diff@.len()) is None,
            fault(f) == pairs_fault(f, 3 + 2 * diff@.len()),
            pair_count(f, 3) == diff@.len(),
        decreases f.len() - diff@.len(),
    {
        let ghost k = scanner.taken();
        let idx_field = match scanner.next() {
            Some(b) => b,
            None => {
                break;
            },
        };
        let idx_token = wire::as_slice(&idx_field);
        if idx_token.len() == 0 {
            // A dangling colon.
            break;
        }
        let idx = scanner::parse_u16(idx_token, "quote index")?;
        let raw = scanner.required("quote value")?;
        let value = decode_value(idx, raw)?;
        let ghost before = diff;
        diff.push((QuoteFieldId(idx), value));
        proof {
            assert forall|i: int| 0 <= i < diff@.len() implies #[trigger] is_pair(f, diff, i) by {
                if i < before@.len() {
                    assert(is_pair(f, before, i));
                }
            }
        }
    }
    Ok(ProtocolMessage::Quote { ticker, time_hhmmss, diff })
}

/// The value of quote index `idx` that `raw` spells.
fn decode_value(idx: u16, raw: Bytes) -> (r: Result<QuoteFieldValue, ParseError>)
    ensures
        match r {
            Ok(v) => value_fault(idx, wire::content(raw)) is None && is_value(
                idx,
                wire::content(raw),
                v,
            ),
            Err(e) => value_fault(idx, wire::content(raw)) == Some(e),
        },
{
    let token = wire::as_slice(&raw);
    Ok(
        match field_type(idx) {
            FieldType::Float => QuoteFieldValue::Float(scanner::parse_decimal(&raw, "quote float")?),
            FieldType::Int => QuoteFieldValue::Int(scanner::parse_i64(token, "quote int")?),
            FieldType::Time => QuoteFieldValue::Time(scanner::parse_u32(token, "quote time")?),
            FieldType::TimeMs => QuoteFieldValue::Time(scanner::parse_u32(token, "quote time-ms")?),
            FieldType::Date => QuoteFieldValue::Date(scanner::parse_u32(token, "quote date")?),
            FieldType::DateTime => QuoteFieldValue::DateTime(
                scanner::parse_u64(token, "quote datetime")?,
            ),
            FieldType::Char => {
                if token.len() != 1 {
                    return Err(
                        ParseError::InvalidField {
                            field: "quote char",
                            reason: "expected exactly one byte",
                        },
                    );
                }
                QuoteFieldValue::Char(token[0])
            },
            FieldType::Phase => QuoteFieldValue::Phase(enums::first_two(token)),
            FieldType::Str => QuoteFieldValue::Str(raw),
        },
    )
}

} // verus!
