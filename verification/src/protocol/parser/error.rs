//! `E:<code>[:<context>...]` frames: errors that the server reports.
//!
//! They parse into a message, and the layer above decides whether to retry, to
//! give up or to go on, with the help of the methods of [`CedroError`].
use crate::protocol::parser::scanner;
use crate::protocol::parser::scanner::Scanner;
use crate::protocol::parser::ParseError;
use crate::protocol::types::{CedroError, ProtocolMessage};
use crate::text;
use crate::wire;
use bytes::Bytes;
use vstd::prelude::*;

verus! {

/// What is wrong with a frame of these fields: the first fault from the left.
pub open spec fn fault(f: Seq<Seq<u8>>) -> Option<ParseError> {
    scanner::or_else(
        scanner::missing(f, 0, "E header"),
        scanner::or_else(
            scanner::missing(f, 1, "error code"),
            scanner::bad_unsigned(f[1], u16::MAX as nat, "error code"),
        ),
    )
}

/// `msg` is what the fields say: the code, and every later field as context.
pub open spec fn is_message(f: Seq<Seq<u8>>, msg: ProtocolMessage) -> bool {
    msg matches ProtocolMessage::Error(e) && e.code == text::number(f[1]) && e.context@.len()
        == f.len() - 2 && forall|i: int|
        0 <= i < e.context@.len() ==> wire::content(#[trigger] e.context@[i]) == f[i + 2]
}

/// Parses an `E:` frame.
pub fn parse(frame: Bytes) -> (r: Result<ProtocolMessage, ParseError>)
    ensures
        match r {
            Ok(msg) => fault(scanner::fields(wire::content(frame))) is None && is_message(
                scanner::fields(wire::content(frame)),
                msg,
            ),
            Err(e) => fault(scanner::fields(wire::content(frame))) == Some(e),
        },
{
    let mut scanner = Scanner::new(frame);
    let ghost f = scanner.fields();
    let _header = scanner.required("E header")?;
    let code_field = scanner.required("error code")?;
    let code = scanner::parse_u16(wire::as_slice(&code_field), "error code")?;
    let mut context: Vec<Bytes> = Vec::new();
    loop
        invariant_except_break
            scanner.wf(),
            scanner.fields() == f,
            scanner.taken() == 2 + context@.len(),
        invariant
            f.len() >= 2 + context@.len(),
            forall|i: int|
                0 <= i < context@.len() ==> wire::content(#[trigger] context@[i]) == f[i + 2],
        ensures
            f.len() == 2 + context@.len(),
        decreases f.len() - context@.len(),
    {
        match scanner.next() {
            Some(token) => {
                context.push(token);
            },
            None => {
                break;
            },
        }
    }
    Ok(ProtocolMessage::Error(CedroError { code, context }))
}

} // verus!
