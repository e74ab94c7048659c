//! `NEM` news frames.
//!
//! - `O:A:<agency>:<code>:<date>:<time>:<category>:<title_len>:<title>`: a live
//!   headline.
//! - `O:L:<req_id>:<agency>:<code>:<date>:<time>:<category>:<title_len>:<title>`:
//!   an item of a history list, which `O:L:<req_id>:END` closes.
//! - `O:N:<req_id>:<agency>:<code>:<body>`: a body. Its line breaks arrive as
//!   ETX bytes and stay so here.
//!
//! Titles and bodies may hold `:`, so each is all that is left of the frame.
use crate::protocol::parser::scanner;
use crate::protocol::parser::scanner::Scanner;
use crate::protocol::parser::ParseError;
use crate::protocol::types::{NewsHeadline, NewsMessage, ProtocolMessage};
use crate::text;
use crate::wire;
use bytes::Bytes;
use vstd::prelude::*;

verus! {

/// What is wrong with a headline whose code is field `k`.
pub open spec fn headline_fault(f: Seq<Seq<u8>>, k: nat) -> Option<ParseError> {
    scanner::or_else(
        scanner::missing(f, k, "code"),
        scanner::or_else(
            scanner::u32_fault(f, k + 1, "news date"),
            scanner::or_else(
                scanner::u32_fault(f, k + 2, "news time"),
                scanner::or_else(
                    scanner::u32_fault(f, k + 3, "news category"),
                    scanner::missing(f, k + 4, "news title length"),
                ),
            ),
        ),
    )
}

/// `h` is the headline whose code is field `k`, of agency `agency`.
pub open spec fn is_headline(f: Seq<Seq<u8>>, agency: Seq<u8>, k: int, h: NewsHeadline) -> bool {
    &&& wire::content(h.agency) == agency
    &&& wire::content(h.code) == f[k]
    &&& h.date == text::number(f[k + 1])
    &&& h.time == text::number(f[k + 2])
    &&& h.category == text::number(f[k + 3])
    &&& wire::content(h.title) == scanner::join(f.skip(k + 5))
}

/// What is wrong with a frame of these fields: the first fault from the left.
pub open spec fn fault(f: Seq<Seq<u8>>) -> Option<ParseError> {
    scanner::or_else(
        scanner::missing(f, 0, "O header"),
        scanner::or_else(
            scanner::missing(f, 1, "news kind"),
            if f[1] == text::bytes_of("A") {
                scanner::or_else(scanner::missing(f, 2, "agency"), headline_fault(f, 3))
            } else if f[1] == text::bytes_of("L") {
                scanner::or_else(
                    scanner::missing(f, 2, "request id"),
                    scanner::or_else(
                        scanner::missing(f, 3, "agency or END"),
                        if f[3] == text::bytes_of("END") {
                            None
                        } else {
                            headline_fault(f, 4)
                        },
                    ),
                )
            } else if f[1] == text::bytes_of("N") {
                scanner::or_else(
                    scanner::missing(f, 2, "request id"),
                    scanner::or_else(
                        scanner::missing(f, 3, "agency"),
                        scanner::missing(f, 4, "code"),
                    ),
                )
            } else {
                Some(
                    ParseError::InvalidField { field: "news kind", reason: "expected A, L, or N" },
                )
            },
        ),
    )
}

/// `news` is what the fields say.
pub open spec fn is_news(f: Seq<Seq<u8>>, news: NewsMessage) -> bool {
    if f[1] == text::bytes_of("A") {
        news matches NewsMessage::Headline(h) && is_headline(f, f[2], 3, h)
    } else if f[1] == text::bytes_of("L") {
        if f[3] == text::bytes_of("END") {
            news matches NewsMessage::HistoryEnd { request_id } && wire::content(request_id) == f[2]
        } else {
            news matches NewsMessage::HistoryItem { request_id, headline } && wire::content(
                request_id,
            ) == f[2] && is_headline(f, f[3], 4, headline)
        }
    } else {
        news matches NewsMessage::Body { request_id, agency, code, body_raw } && wire::content(
            request_id,
        ) == f[2] && wire::content(agency) == f[3] && wire::content(code) == f[4] && wire::content(
            body_raw,
        ) == scanner::join(f.skip(5))
    }
}

/// `msg` is what the fields say.
pub open spec fn is_message(f: Seq<Seq<u8>>, msg: ProtocolMessage) -> bool {
    msg matches ProtocolMessage::News(news) && is_news(f, news)
}

/// Parses a `NEM` frame.
pub fn parse(frame: Bytes) -> (r: Result<ProtocolMessage, ParseError>)
    ensures
        match r {
            Ok(msg) => fault(scanner::fields(wire::content(frame))) is None && is_message(
                scanner::fields(wire::content(frame)),
                msg,
            ),
            Err(e) => fault(scanner::fields(wire::content(frame))) == Some(e),
        },
{
    let mut scanner = Scanner::new(frame);
    let _header = scanner.required("O header")?;
    let kind_field = scanner.required("news kind")?;
    let kind = wire::as_slice(&kind_field);
    proof {
        lemma_letters();
    }
    let news = if text::is_word(kind, "A") {
        let agency = scanner.required("agency")?;
        NewsMessage::Headline(read_headline(&mut scanner, agency)?)
    } else if text::is_word(kind, "L") {
        let request_id = scanner.required("request id")?;
        let next = scanner.required("agency or END")?;
        if text::is_word(wire::as_slice(&next), "END") {
            NewsMessage::HistoryEnd { request_id }
        } else {
            let headline = read_headline(&mut scanner, next)?;
            NewsMessage::HistoryItem { request_id, headline }
        }
    } else if text::is_word(kind, "N") {
        let request_id = scanner.required("request id")?;
        let agency = scanner.required("agency")?;
        let code = scanner.required("code")?;
        let body_raw = scanner.take_rest();
        NewsMessage::Body { request_id, agency, code, body_raw }
    } else {
        return Err(ParseError::InvalidField { field: "news kind", reason: "expected A, L, or N" });
    };
    Ok(ProtocolMessage::News(news))
}

/// The letters are told apart.
proof fn lemma_letters()
    ensures
        text::bytes_of("A") != text::bytes_of("L"),
        text::bytes_of("A") != text::bytes_of("N"),
        text::bytes_of("L") != text::bytes_of("N"),
{
    reveal_strlit("A");
    reveal_strlit("L");
    reveal_strlit("N");
    text::lemma_one_byte("A", 'A');
    text::lemma_one_byte("L", 'L');
    text::lemma_one_byte("N", 'N');
    assert(text::bytes_of("A")[0] == 'A' as u8);
    assert(text::bytes_of("L")[0] == 'L' as u8);
    assert(text::bytes_of("N")[0] == 'N' as u8);
}

/// Reads `<code>:<date>:<time>:<category>:<title_len>:<title>` into a headline.
fn read_headline(scanner: &mut Scanner, agency: Bytes) -> (r: Result<NewsHeadline, ParseError>)
    requires
        old(scanner).wf(),
        old(scanner).consumed() == old(scanner).taken(),
    ensures
        match r {
            Ok(h) => headline_fault(old(scanner).fields(), old(scanner).taken()) is None
                && is_headline(
                old(scanner).fields(),
                wire::content(agency),
                old(scanner).taken() as int,
                h,
            ),
            Err(e) => headline_fault(old(scanner).fields(), old(scanner).taken()) == Some(e),
        },
{
    let code = scanner.required("code")?;
    let date = scanner.required_u32("news date")?;
    let time = scanner.required_u32("news time")?;
    let category = scanner.required_u32("news category")?;
    // The length tells nothing that the rest of the frame does not.
    let _title_len = scanner.required("news title length")?;
    let title = scanner.take_rest();
    Ok(NewsHeadline { agency, code, date, time, category, title })
}

/// The body is the frame's own tail, colons and all: fields one to four, a
/// colon and the body make up the frame.
pub proof fn law_body_is_verbatim(s: Seq<u8>, news: NewsMessage)
    requires
        fault(scanner::fields(s)) is None,
        scanner::fields(s)[1] == text::bytes_of("N"),
        scanner::fields(s).len() > 5,
        is_news(scanner::fields(s), news),
    ensures
        news matches NewsMessage::Body { request_id, agency, code, body_raw } && s
            == scanner::fields(s)[0] + seq![':' as u8] + scanner::fields(s)[1] + seq![':' as u8]
            + wire::content(request_id) + seq![':' as u8] + wire::content(agency)
            + seq![':' as u8] + wire::content(code) + seq![':' as u8] + wire::content(body_raw),
{
    let f = scanner::fields(s);
    lemma_letters();
    scanner::law_fields_are_lossless(s);
    assert(f.drop_first() =~= f.skip(1));
    assert(f.skip(1).drop_first() =~= f.skip(2));
    assert(f.skip(2).drop_first() =~= f.skip(3));
    assert(f.skip(3).drop_first() =~= f.skip(4));
    assert(f.skip(4).drop_first() =~= f.skip(5));
    reveal_with_fuel(scanner::join, 6);
    assert(s =~= f[0] + seq![':' as u8] + f[1] + seq![':' as u8] + f[2] + seq![':' as u8] + f[3]
        + seq![':' as u8] + f[4] + seq![':' as u8] + scanner::join(f.skip(5)));
}

} // verus!
