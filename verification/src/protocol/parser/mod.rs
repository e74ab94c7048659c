//! From one frame to one typed message.

pub mod bqt;
pub mod error;
pub mod gpn;
pub mod gqt;
pub mod gtc;
pub mod layouts;
pub mod mqc;
pub mod nem;
pub mod notices;
pub mod quotes;
pub mod refusals;
pub mod sab;
pub mod scanner;
pub mod sqt;
pub mod vap;

use crate::protocol::frame::FrameKind;
use crate::protocol::types::ProtocolMessage;
use crate::text;
use crate::wire;
use bytes::Bytes;
use vstd::prelude::*;

verus! {

/// A frame that could not be parsed.
///
/// An `E:<code>` frame of the server is no such error: it parses into
/// [`ProtocolMessage::Error`].
#[derive(Debug, PartialEq, Eq)]
pub enum ParseError {
    /// The frame holds nothing.
    Empty,
    /// The frame begins with no known header.
    UnknownHeader(Bytes),
    /// The frame ends before field `position`, counted from one.
    MissingField { position: usize, expected: &'static str },
    /// The field holds something that its place does not allow.
    InvalidField { field: &'static str, reason: &'static str },
    /// The field is not valid UTF-8.
    BadEncoding { field: &'static str },
    /// The field is no integer, or one out of range.
    BadInteger { field: &'static str },
    /// The field is no number.
    BadFloat { field: &'static str },
    /// No parser for the header.
    NotImplemented { header: &'static str },
}

/// How a byte is shown: as itself where it is printable ASCII, else escaped.
pub open spec fn shown(b: u8) -> Seq<char> {
    if b == '\n' as u8 {
        "\\n"@
    } else if b == '\r' as u8 {
        "\\r"@
    } else if b == '\t' as u8 {
        "\\t"@
    } else if b == 0 {
        "\\0"@
    } else if b == '\\' as u8 || b == '"' as u8 {
        "\\"@.push(b as char)
    } else if 0x20 <= b < 0x7f {
        seq![b as char]
    } else {
        "\\x"@ + text::hex_bytes(seq![b])
    }
}

/// How bytes are shown, one behind the other.
pub open spec fn all_shown(b: Seq<u8>) -> Seq<char>
    decreases b.len(),
{
    if b.len() == 0 {
        Seq::empty()
    } else {
        all_shown(b.drop_last()) + shown(b.last())
    }
}

/// What `Debug` of a handle shows: its bytes in quotes, with escapes.
pub open spec fn quoted_bytes(b: Seq<u8>) -> Seq<char> {
    "b\""@ + all_shown(b) + "\""@
}

/// `format!` with `Debug` of a handle: printable ASCII as it is, all else escaped
/// as in a byte string literal.
#[verifier::external_body]
fn quote_bytes(b: &Bytes) -> (r: String)
    ensures
        r@ == quoted_bytes(wire::content(*b)),
{
    format!("{b:?}")
}

/// The message of a frame that could not be parsed.
pub open spec fn message_of(e: ParseError) -> Seq<char> {
    match e {
        ParseError::Empty => "empty frame"@,
        ParseError::UnknownHeader(b) => "unknown functional header: "@ + quoted_bytes(
            wire::content(b),
        ),
        ParseError::MissingField { position, expected } => "missing field at position "@
            + text::decimal(position as nat) + " (expected "@ + expected@ + ")"@,
        ParseError::InvalidField { field, reason } => "invalid "@ + field@ + ": "@ + reason@,
        ParseError::BadEncoding { field } => "malformed UTF-8 / invalid byte sequence in "@
            + field@,
        ParseError::BadInteger { field } => "invalid integer in field "@ + field@,
        ParseError::BadFloat { field } => "invalid float in field "@ + field@,
        ParseError::NotImplemented { header } => "parser for header "@ + header@
            + " not yet implemented"@,
    }
}

impl ParseError {
    /// The message of the error.
    pub fn message(&self) -> (r: String)
        ensures
            r@ == message_of(*self),
    {
        match self {
            ParseError::Empty => "empty frame".to_owned(),
            ParseError::UnknownHeader(b) => "unknown functional header: ".to_owned().concat(
                quote_bytes(b).as_str(),
            ),
            ParseError::MissingField { position, expected } => {
                let mut out: String = "missing field at position ".to_owned();
                text::push_decimal(&mut out, *position as u64);
                out.concat(" (expected ").concat(expected).concat(")")
            },
            ParseError::InvalidField { field, reason } => "invalid ".to_owned().concat(
                field,
            ).concat(": ").concat(reason),
            ParseError::BadEncoding { field } =>
                "malformed UTF-8 / invalid byte sequence in ".to_owned().concat(field),
            ParseError::BadInteger { field } => "invalid integer in field ".to_owned().concat(
                field,
            ),
            ParseError::BadFloat { field } => "invalid float in field ".to_owned().concat(field),
            ParseError::NotImplemented { header } => "parser for header ".to_owned().concat(
                header,
            ).concat(" not yet implemented"),
        }
    }
}

/// The functional header of a frame.
#[derive(Debug, Clone, Copy, PartialEq, Eq, Structural)]
pub enum Header {
    /// `T:`
    Quote,
    /// `B:`
    Book,
    /// `Z:`
    AggBook,
    /// `V:`
    Trade,
    /// `O:`
    News,
    /// `VAP:`
    Vap,
    /// `GTC:`
    ServerTime,
    /// `C:`
    Catalog,
    /// `G:`
    Broker,
    /// `E:`
    Error,
}

/// The header that a frame begins with.
pub open spec fn header_of(s: Seq<u8>) -> Option<Header> {
    if text::begins_with(s, text::bytes_of("T:")) {
        Some(Header::Quote)
    } else if text::begins_with(s, text::bytes_of("B:")) {
        Some(Header::Book)
    } else if text::begins_with(s, text::bytes_of("Z:")) {
        Some(Header::AggBook)
    } else if text::begins_with(s, text::bytes_of("V:")) {
        Some(Header::Trade)
    } else if text::begins_with(s, text::bytes_of("O:")) {
        Some(Header::News)
    } else if text::begins_with(s, text::bytes_of("VAP:")) {
        Some(Header::Vap)
    } else if text::begins_with(s, text::bytes_of("GTC:")) {
        Some(Header::ServerTime)
    } else if text::begins_with(s, text::bytes_of("C:")) {
        Some(Header::Catalog)
    } else if text::begins_with(s, text::bytes_of("G:")) {
        Some(Header::Broker)
    } else if text::begins_with(s, text::bytes_of("E:")) {
        Some(Header::Error)
    } else {
        None
    }
}

/// What is wrong with a frame of these fields under a header.
pub open spec fn fault(header: Header, f: Seq<Seq<u8>>) -> Option<ParseError> {
    match header {
        Header::Quote => sqt::fault(f),
        Header::Book => bqt::fault(f),
        Header::AggBook => sab::fault(f),
        Header::Trade => gqt::fault(f),
        Header::News => nem::fault(f),
        Header::Vap => vap::fault(f),
        Header::ServerTime => gtc::fault(f),
        Header::Catalog => mqc::fault(f),
        Header::Broker => gpn::fault(f),
        Header::Error => error::fault(f),
    }
}

/// `msg` is what the fields say under a header.
pub open spec fn is_message(header: Header, f: Seq<Seq<u8>>, msg: ProtocolMessage) -> bool {
    match header {
        Header::Quote => sqt::is_message(f, msg),
        Header::Book => bqt::is_message(f, msg),
        Header::AggBook => sab::is_message(f, msg),
        Header::Trade => gqt::is_message(f, msg),
        Header::News => nem::is_message(f, msg),
        Header::Vap => vap::is_message(f, msg),
        Header::ServerTime => gtc::is_message(f, msg),
        Header::Catalog => mqc::is_message(f, msg),
        Header::Broker => gpn::is_message(f, msg),
        Header::Error => error::is_message(f, msg),
    }
}

/// The header that a frame begins with.
fn find_header(b: &[u8]) -> (r: Option<Header>)
    ensures
        r == header_of(b@),
{
    if text::starts_with_word(b, "T:") {
        Some(Header::Quote)
    } else if text::starts_with_word(b, "B:") {
        Some(Header::Book)
    } else if text::starts_with_word(b, "Z:") {
        Some(Header::AggBook)
    } else if text::starts_with_word(b, "V:") {
        Some(Header::Trade)
    } else if text::starts_with_word(b, "O:") {
        Some(Header::News)
    } else if text::starts_with_word(b, "VAP:") {
        Some(Header::Vap)
    } else if text::starts_with_word(b, "GTC:") {
        Some(Header::ServerTime)
    } else if text::starts_with_word(b, "C:") {
        Some(Header::Catalog)
    } else if text::starts_with_word(b, "G:") {
        Some(Header::Broker)
    } else if text::starts_with_word(b, "E:") {
        Some(Header::Error)
    } else {
        None
    }
}

/// The terminator of frames under a header: quotes end in `!`, all others in a
/// newline.
pub open spec fn kind_under(header: Header) -> FrameKind {
    match header {
        Header::Quote => FrameKind::Bang,
        _ => FrameKind::Newline,
    }
}

/// What is wrong with a frame under a header that came with a terminator.
pub open spec fn kind_fault(kind: FrameKind, header: Header) -> Option<ParseError> {
    if kind == kind_under(header) {
        None
    } else {
        Some(
            ParseError::InvalidField {
                field: "terminator",
                reason: "expected ! after T frames and a newline after all others",
            },
        )
    }
}

/// `msg` is what a frame says that came with a terminator.
pub open spec fn says(kind: FrameKind, s: Seq<u8>, msg: ProtocolMessage) -> bool {
    &&& s.len() > 0
    &&& header_of(s) matches Some(h)
    &&& kind_fault(kind, h) is None
    &&& fault(h, scanner::fields(s)) is None
    &&& is_message(h, scanner::fields(s), msg)
}

/// `e` is what is wrong with a frame that came with a terminator.
pub open spec fn is_wrong(kind: FrameKind, s: Seq<u8>, e: ParseError) -> bool {
    if s.len() == 0 {
        e is Empty
    } else {
        match header_of(s) {
            Some(h) => scanner::or_else(kind_fault(kind, h), fault(h, scanner::fields(s))) == Some(
                e,
            ),
            None => e matches ParseError::UnknownHeader(b) && wire::content(b) == s,
        }
    }
}

/// Parses one frame (without its terminator) into a typed message.
///
/// The header decides how; the terminator must be the one that goes with it.
pub fn parse_frame(kind: FrameKind, frame: Bytes) -> (r: Result<ProtocolMessage, ParseError>)
    ensures
        match r {
            Ok(msg) => says(kind, wire::content(frame), msg),
            Err(e) => is_wrong(kind, wire::content(frame), e),
        },
{
    let bytes = wire::as_slice(&frame);
    if bytes.len() == 0 {
        return Err(ParseError::Empty);
    }
    let header = match find_header(bytes) {
        Some(header) => header,
        None => {
            return Err(ParseError::UnknownHeader(frame));
        },
    };
    let expected = match header {
        Header::Quote => FrameKind::Bang,
        _ => FrameKind::Newline,
    };
    if kind != expected {
        return Err(
            ParseError::InvalidField {
                field: "terminator",
                reason: "expected ! after T frames and a newline after all others",
            },
        );
    }
    match header {
        Header::Quote => sqt::parse(frame),
        Header::Book => bqt::parse(frame),
        Header::AggBook => sab::parse(frame),
        Header::Trade => gqt::parse(frame),
        Header::News => nem::parse(frame),
        Header::Vap => vap::parse(frame),
        Header::ServerTime => gtc::parse(frame),
        Header::Catalog => mqc::parse(frame),
        Header::Broker => gpn::parse(frame),
        Header::Error => error::parse(frame),
    }
}

/// A frame either says something or is wrong, never both.
pub proof fn law_parsing_is_decided(
    kind: FrameKind,
    s: Seq<u8>,
    msg: ProtocolMessage,
    e: ParseError,
)
    ensures
        !(says(kind, s, msg) && is_wrong(kind, s, e)),
{
}

/// A frame is wrong in one way only, up to which handle its bytes came in.
pub proof fn law_first_fault_is_told(kind: FrameKind, s: Seq<u8>, a: ParseError, b: ParseError)
    requires
        is_wrong(kind, s, a),
        is_wrong(kind, s, b),
    ensures
        a == b || (a is UnknownHeader && b is UnknownHeader),
{
}

/// The terminator never goes unnoticed: what is said with one is wrong with the
/// other.
pub proof fn law_terminators_matter(
    a: FrameKind,
    b: FrameKind,
    s: Seq<u8>,
    m: ProtocolMessage,
    n: ProtocolMessage,
)
    requires
        says(a, s, m),
        says(b, s, n),
    ensures
        a == b,
{
}

/// How errors are worded.
pub proof fn law_errors_are_worded(
    b: Bytes,
    position: usize,
    field: &'static str,
    reason: &'static str,
)
    ensures
        message_of(ParseError::Empty) == "empty frame"@,
        message_of(ParseError::UnknownHeader(b)) == "unknown functional header: "@ + quoted_bytes(
            wire::content(b),
        ),
        message_of(ParseError::MissingField { position, expected: field })
            == "missing field at position "@ + text::decimal(position as nat) + " (expected "@
            + field@ + ")"@,
        message_of(ParseError::InvalidField { field, reason }) == "invalid "@ + field@ + ": "@
            + reason@,
        message_of(ParseError::BadEncoding { field })
            == "malformed UTF-8 / invalid byte sequence in "@ + field@,
        message_of(ParseError::BadInteger { field }) == "invalid integer in field "@ + field@,
        message_of(ParseError::BadFloat { field }) == "invalid float in field "@ + field@,
        message_of(ParseError::NotImplemented { header: field }) == "parser for header "@ + field@
            + " not yet implemented"@,
{
}

/// Frames are refused when nothing is in them, when their header is unknown, or
/// when a frame of quotes ends in a newline or another one in `!`.
pub proof fn law_refused_at_once(kind: FrameKind, s: Seq<u8>, e: ParseError)
    requires
        is_wrong(kind, s, e),
    ensures
        s.len() == 0 ==> e is Empty,
        s.len() > 0 && header_of(s) is None ==> (e matches ParseError::UnknownHeader(b)
            && wire::content(b) == s),
        s.len() > 0 && header_of(s) == Some(Header::Quote) && kind == FrameKind::Newline ==> e
            == (ParseError::InvalidField {
            field: "terminator",
            reason: "expected ! after T frames and a newline after all others",
        }),
        s.len() > 0 && header_of(s) is Some && header_of(s) != Some(Header::Quote) && kind
            == FrameKind::Bang ==> e == (ParseError::InvalidField {
            field: "terminator",
            reason: "expected ! after T frames and a newline after all others",
        }),
{
}

/// Bytes are shown between quotation marks behind a `b`: printable ones as they
/// are, quotation marks and backslashes behind a backslash, line breaks, tabs and
/// zeros by their letters, and all others in hexadecimal.
pub proof fn law_bytes_are_shown(b: Seq<u8>, x: u8)
    ensures
        quoted_bytes(b) == seq!['b', '"'] + all_shown(b) + seq!['"'],
        all_shown(Seq::empty()).len() == 0,
        all_shown(b.push(x)) == all_shown(b) + shown(x),
        x == 10 ==> shown(x) == seq!['\\', 'n'],
        x == 13 ==> shown(x) == seq!['\\', 'r'],
        x == 9 ==> shown(x) == seq!['\\', 't'],
        x == 0 ==> shown(x) == seq!['\\', '0'],
        x == 34 || x == 92 ==> shown(x) == seq!['\\', x as char],
        32 <= x < 127 && x != 34 && x != 92 ==> shown(x) == seq![x as char],
        x >= 127 || x < 32 && x != 10 && x != 13 && x != 9 && x != 0 ==> shown(x) == seq![
            '\\',
            'x',
            text::hex_digit((x / 16) as nat),
            text::hex_digit((x % 16) as nat),
        ],
{
    reveal_strlit("\\n");
    reveal_strlit("\\r");
    reveal_strlit("\\t");
    reveal_strlit("\\0");
    reveal_strlit("\\");
    reveal_strlit("\\x");
    reveal_strlit("b\"");
    reveal_strlit("\"");
    assert("b\""@ =~= seq!['b', '"']);
    assert("\""@ =~= seq!['"']);
    assert(b.push(x).drop_last() =~= b);
    let e = Seq::<u8>::empty();
    assert(seq![x] =~= e.push(x));
    text::law_hex_is_written_byte_by_byte(e, x, 0, 0);
    assert(text::hex_bytes(seq![x]) =~= seq![
        text::hex_digit((x / 16) as nat),
        text::hex_digit((x % 16) as nat),
    ]);
    assert("\\n"@ =~= seq!['\\', 'n']);
    assert("\\r"@ =~= seq!['\\', 'r']);
    assert("\\t"@ =~= seq!['\\', 't']);
    assert("\\0"@ =~= seq!['\\', '0']);
    assert("\\"@.push(x as char) =~= seq!['\\', x as char]);
    assert("\\x"@ + text::hex_bytes(seq![x]) =~= seq![
        '\\',
        'x',
        text::hex_digit((x / 16) as nat),
        text::hex_digit((x % 16) as nat),
    ]);
}

/// The parser of each header reads and refuses as [`parse_frame`] does under it.
pub proof fn law_each_header_has_its_parser(frame: Bytes, msg: ProtocolMessage, e: ParseError)
    ensures
        call_ensures(sqt::parse, (frame,), Ok(msg)) ==> fault(
            Header::Quote,
            scanner::fields(wire::content(frame)),
        ) is None && is_message(Header::Quote, scanner::fields(wire::content(frame)), msg),
        call_ensures(sqt::parse, (frame,), Err(e)) ==> fault(
            Header::Quote,
            scanner::fields(wire::content(frame)),
        ) == Some(e),
        call_ensures(bqt::parse, (frame,), Ok(msg)) ==> fault(
            Header::Book,
            scanner::fields(wire::content(frame)),
        ) is None && is_message(Header::Book, scanner::fields(wire::content(frame)), msg),
        call_ensures(bqt::parse, (frame,), Err(e)) ==> fault(
            Header::Book,
            scanner::fields(wire::content(frame)),
        ) == Some(e),
        call_ensures(sab::parse, (frame,), Ok(msg)) ==> fault(
            Header::AggBook,
            scanner::fields(wire::content(frame)),
        ) is None && is_message(Header::AggBook, scanner::fields(wire::content(frame)), msg),
        call_ensures(sab::parse, (frame,), Err(e)) ==> fault(
            Header::AggBook,
            scanner::fields(wire::content(frame)),
        ) == Some(e),
        call_ensures(gqt::parse, (frame,), Ok(msg)) ==> fault(
            Header::Trade,
            scanner::fields(wire::content(frame)),
        ) is None && is_message(Header::Trade, scanner::fields(wire::content(frame)), msg),
        call_ensures(gqt::parse, (frame,), Err(e)) ==> fault(
            Header::Trade,
            scanner::fields(wire::content(frame)),
        ) == Some(e),
        call_ensures(nem::parse, (frame,), Ok(msg)) ==> fault(
            Header::News,
            scanner::fields(wire::content(frame)),
        ) is None && is_message(Header::News, scanner::fields(wire::content(frame)), msg),
        call_ensures(nem::parse, (frame,), Err(e)) ==> fault(
            Header::News,
            scanner::fields(wire::content(frame)),
        ) == Some(e),
        call_ensures(vap::parse, (frame,), Ok(msg)) ==> fault(
            Header::Vap,
            scanner::fields(wire::content(frame)),
        ) is None && is_message(Header::Vap, scanner::fields(wire::content(frame)), msg),
        call_ensures(vap::parse, (frame,), Err(e)) ==> fault(
            Header::Vap,
            scanner::fields(wire::content(frame)),
        ) == Some(e),
        call_ensures(gtc::parse, (frame,), Ok(msg)) ==> fault(
            Header::ServerTime,
            scanner::fields(wire::content(frame)),
        ) is None && is_message(Header::ServerTime, scanner::fields(wire::content(frame)), msg),
        call_ensures(gtc::parse, (frame,), Err(e)) ==> fault(
            Header::ServerTime,
            scanner::fields(wire::content(frame)),
        ) == Some(e),
        call_ensures(mqc::parse, (frame,), Ok(msg)) ==> fault(
            Header::Catalog,
            scanner::fields(wire::content(frame)),
        ) is None && is_message(Header::Catalog, scanner::fields(wire::content(frame)), msg),
        call_ensures(mqc::parse, (frame,), Err(e)) ==> fault(
            Header::Catalog,
            scanner::fields(wire::content(frame)),
        ) == Some(e),
        call_ensures(gpn::parse, (frame,), Ok(msg)) ==> fault(
            Header::Broker,
            scanner::fields(wire::content(frame)),
        ) is None && is_message(Header::Broker, scanner::fields(wire::content(frame)), msg),
        call_ensures(gpn::parse, (frame,), Err(e)) ==> fault(
            Header::Broker,
            scanner::fields(wire::content(frame)),
        ) == Some(e),
        call_ensures(error::parse, (frame,), Ok(msg)) ==> fault(
            Header::Error,
            scanner::fields(wire::content(frame)),
        ) is None && is_message(Header::Error, scanner::fields(wire::content(frame)), msg),
        call_ensures(error::parse, (frame,), Err(e)) ==> fault(
            Header::Error,
            scanner::fields(wire::content(frame)),
        ) == Some(e),
{
}

} // verus!
