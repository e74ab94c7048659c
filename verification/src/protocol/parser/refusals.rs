//! What is wrong with a frame that is refused: the first field from the left that
//! is missing, or holds what it may not.
use crate::protocol::frame::FrameKind;
use crate::protocol::parser::layouts;
use crate::protocol::parser::notices;
use crate::protocol::parser::sqt::FieldType;
use crate::protocol::parser::{bqt, gqt, sab, scanner, sqt, vap};
use crate::protocol::parser::quotes;
use crate::protocol::parser::{Header, ParseError};
use crate::protocol::types::{ProtocolMessage, QuoteDiff};
use crate::text;
use bytes::Bytes;
use vstd::prelude::*;
use vstd::utf8;

verus! {

/// The frame of these fields is refused for want of one more, which was to be
/// `expected`.
pub open spec fn lacks(f: Seq<Seq<u8>>, e: ParseError, expected: &'static str) -> bool {
    e == (ParseError::MissingField { position: (f.len() + 1) as usize, expected })
}

/// A number was expected, and these bytes are none: empty, no text, or no literal.
pub open spec fn is_no_amount(s: Seq<u8>, e: ParseError, field: &'static str) -> bool {
    &&& s.len() == 0 ==> e == (ParseError::BadFloat { field })
    &&& s.len() > 0 && !utf8::valid_utf8(s) ==> e == (ParseError::BadEncoding { field })
    &&& s.len() > 0 && utf8::valid_utf8(s) ==> e == (ParseError::BadFloat { field })
}

/// A side was expected, and these bytes are none: not one byte, or another letter.
pub open spec fn is_no_side(s: Seq<u8>, e: ParseError, field: &'static str) -> bool {
    &&& s.len() != 1 ==> e == (ParseError::InvalidField {
        field,
        reason: "expected one byte (A or V)",
    })
    &&& s.len() == 1 ==> e == (ParseError::InvalidField {
        field,
        reason: "expected A (buy) or V (sell)",
    })
}

proof fn lemma_counts(s: Seq<u8>, max: nat)
    ensures
        scanner::is_unsigned(s, max) <==> layouts::is_count(s, max),
{
    if scanner::is_unsigned(s, max) {
        assert forall|i: int| 0 <= i < s.len() implies 48 <= #[trigger] s[i] <= 57 by {
            assert(text::is_digit(s[i]));
        }
    }
    if layouts::is_count(s, max) {
        layouts::lemma_count(s, max);
    }
}

proof fn lemma_amounts(s: Seq<u8>, field: &'static str)
    requires
        layouts::is_field(s),
    ensures
        scanner::bad_decimal(s, field) is None <==> layouts::is_amount(s),
        scanner::bad_decimal(s, field) matches Some(e) ==> is_no_amount(s, e, field),
{
}

proof fn lemma_sides(s: Seq<u8>)
    ensures
        bqt::bad_side(s) is None <==> s == seq![65u8] || s == seq![86u8],
        sab::bad_side(s) is None <==> s == seq![65u8] || s == seq![86u8],
{
    assert(seq![65u8][0] == 65 && seq![86u8][0] == 86);
    if s.len() == 1 {
        assert(s =~= seq![s[0]]);
    }
}

/// Pairs that are read are readable.
proof fn lemma_readable(f: Seq<Seq<u8>>, j: nat, i: nat)
    requires
        j <= i,
        sqt::pairs_fault(f, 3 + 2 * j) is None,
        i < j + sqt::pair_count(f, 3 + 2 * j),
    ensures
        4 + 2 * i < f.len(),
        quotes::is_readable_pair(f, i as int),
    decreases i - j,
{
    let k: nat = 3 + 2 * j;
    assert(!sqt::ends_at(f, k));
    lemma_counts(f[k as int], u16::MAX as nat);
    if j < i {
        assert(k + 2 == 3 + 2 * (j + 1));
        lemma_readable(f, j + 1, i);
    }
}

proof fn lemma_zero_count()
    ensures
        layouts::is_count(seq![48u8], u32::MAX as nat),
{
    text::law_digits_are_read_in_base_ten(Seq::empty(), 48);
    assert(seq![48u8][0] == 48);
}

/// What is wrong with an added entry of the detailed book.
pub proof fn law_refused_book_add(f: Seq<Seq<u8>>, e: ParseError)
    requires
        f.len() >= 2,
        f[0] == seq![66u8],
        notices::are_fields(f, 1),
        f.len() >= 3,
        f[2] == seq![65u8],
        layouts::refuses(FrameKind::Newline, f, e),
    ensures
        f.len() == 3 ==> lacks(f, e, "position"),
        f.len() > 3 && !layouts::is_count(f[3], u32::MAX as nat)
            ==> e == (ParseError::BadInteger { field: "position" }),
        layouts::is_count(f[3], u32::MAX as nat) && f.len() == 4 ==> lacks(f, e, "side"),
        layouts::is_count(f[3], u32::MAX as nat) && f.len() > 4
            && !(f[4] == seq![65u8] || f[4] == seq![86u8]) ==> is_no_side(f[4], e, "book side"),
        layouts::is_count(f[3], u32::MAX as nat) && (f[4] == seq![65u8] || f[4] == seq![86u8])
            && f.len() == 5 ==> lacks(f, e, "price"),
        layouts::is_count(f[3], u32::MAX as nat) && (f[4] == seq![65u8] || f[4] == seq![86u8])
            && f.len() > 5 && !layouts::is_amount(f[5]) ==> is_no_amount(f[5], e, "price"),
        layouts::is_count(f[3], u32::MAX as nat) && (f[4] == seq![65u8] || f[4] == seq![86u8])
            && layouts::is_amount(f[5]) && f.len() == 6 ==> lacks(f, e, "quantity"),
        layouts::is_count(f[3], u32::MAX as nat) && (f[4] == seq![65u8] || f[4] == seq![86u8])
            && layouts::is_amount(f[5]) && f.len() > 6
            && !layouts::is_count(f[6], u64::MAX as nat)
            ==> e == (ParseError::BadInteger { field: "quantity" }),
        layouts::is_count(f[3], u32::MAX as nat) && (f[4] == seq![65u8] || f[4] == seq![86u8])
            && layouts::is_amount(f[5]) && layouts::is_count(f[6], u64::MAX as nat)
            && f.len() == 7 ==> lacks(f, e, "broker id"),
        layouts::is_count(f[3], u32::MAX as nat) && (f[4] == seq![65u8] || f[4] == seq![86u8])
            && layouts::is_amount(f[5]) && layouts::is_count(f[6], u64::MAX as nat) && f.len() > 7
            && !layouts::is_count(f[7], u32::MAX as nat)
            ==> e == (ParseError::BadInteger { field: "broker id" }),
        layouts::is_count(f[3], u32::MAX as nat) && (f[4] == seq![65u8] || f[4] == seq![86u8])
            && layouts::is_amount(f[5]) && layouts::is_count(f[6], u64::MAX as nat)
            && layouts::is_count(f[7], u32::MAX as nat) && f.len() == 8
            ==> lacks(f, e, "DDMMHHMM"),
        layouts::is_count(f[3], u32::MAX as nat) && (f[4] == seq![65u8] || f[4] == seq![86u8])
            && layouts::is_amount(f[5]) && layouts::is_count(f[6], u64::MAX as nat)
            && layouts::is_count(f[7], u32::MAX as nat) && f.len() > 8
            && !layouts::is_count(f[8], u32::MAX as nat)
            ==> e == (ParseError::BadInteger { field: "DDMMHHMM" }),
        layouts::is_count(f[3], u32::MAX as nat) && (f[4] == seq![65u8] || f[4] == seq![86u8])
            && layouts::is_amount(f[5]) && layouts::is_count(f[6], u64::MAX as nat)
            && layouts::is_count(f[7], u32::MAX as nat)
            && layouts::is_count(f[8], u32::MAX as nat) && f.len() == 10
            ==> lacks(f, e, "offer type"),
        layouts::is_count(f[3], u32::MAX as nat) && (f[4] == seq![65u8] || f[4] == seq![86u8])
            && layouts::is_amount(f[5]) && layouts::is_count(f[6], u64::MAX as nat)
            && layouts::is_count(f[7], u32::MAX as nat)
            && layouts::is_count(f[8], u32::MAX as nat) && f.len() > 10 && f[10].len() != 1
            ==> e == (ParseError::InvalidField {
            field: "offer type",
            reason: "expected one byte (L or O)",
        }),
{
    layouts::lemma_letters();
    layouts::lemma_frame(f, Header::Book);
    lemma_counts(f[3], u32::MAX as nat);
    lemma_sides(f[4]);
    if f.len() > 5 {
        lemma_amounts(f[5], "price");
    }
    lemma_counts(f[6], u64::MAX as nat);
    lemma_counts(f[7], u32::MAX as nat);
    lemma_counts(f[8], u32::MAX as nat);
    assert(bqt::fault(f) == Some(e));
}

/// Only whole entries are added to the detailed book.
pub proof fn law_parsed_book_add(f: Seq<Seq<u8>>, msg: ProtocolMessage)
    requires
        f.len() >= 2,
        f[0] == seq![66u8],
        notices::are_fields(f, 1),
        f.len() >= 3,
        f[2] == seq![65u8],
        layouts::reads(FrameKind::Newline, f, msg),
    ensures
        f.len() >= 9,
        layouts::is_count(f[3], u32::MAX as nat),
        (f[4] == seq![65u8] || f[4] == seq![86u8]),
        layouts::is_amount(f[5]),
        layouts::is_count(f[6], u64::MAX as nat),
        layouts::is_count(f[7], u32::MAX as nat),
        layouts::is_count(f[8], u32::MAX as nat),
        f.len() == 9 || f.len() >= 11 && f[10].len() == 1,
{
    layouts::lemma_letters();
    layouts::lemma_frame(f, Header::Book);
    lemma_counts(f[3], u32::MAX as nat);
    lemma_sides(f[4]);
    if f.len() > 5 {
        lemma_amounts(f[5], "price");
    }
    lemma_counts(f[6], u64::MAX as nat);
    lemma_counts(f[7], u32::MAX as nat);
    lemma_counts(f[8], u32::MAX as nat);
}

/// What is wrong with a moved entry of the detailed book.
pub proof fn law_refused_book_update(f: Seq<Seq<u8>>, e: ParseError)
    requires
        f.len() >= 2,
        f[0] == seq![66u8],
        notices::are_fields(f, 1),
        f.len() >= 3,
        f[2] == seq![85u8],
        layouts::refuses(FrameKind::Newline, f, e),
    ensures
        f.len() == 3 ==> lacks(f, e, "new position"),
        f.len() > 3 && !layouts::is_count(f[3], u32::MAX as nat)
            ==> e == (ParseError::BadInteger { field: "new position" }),
        layouts::is_count(f[3], u32::MAX as nat) && f.len() == 4 ==> lacks(f, e, "old position"),
        layouts::is_count(f[3], u32::MAX as nat) && f.len() > 4
            && !layouts::is_count(f[4], u32::MAX as nat)
            ==> e == (ParseError::BadInteger { field: "old position" }),
        layouts::is_count(f[3], u32::MAX as nat) && layouts::is_count(f[4], u32::MAX as nat)
            && f.len() == 5 ==> lacks(f, e, "side"),
        layouts::is_count(f[3], u32::MAX as nat) && layouts::is_count(f[4], u32::MAX as nat)
            && f.len() > 5 && !(f[5] == seq![65u8] || f[5] == seq![86u8])
            ==> is_no_side(f[5], e, "book side"),
        layouts::is_count(f[3], u32::MAX as nat) && layouts::is_count(f[4], u32::MAX as nat)
            && (f[5] == seq![65u8] || f[5] == seq![86u8]) && f.len() == 6 ==> lacks(f, e, "price"),
        layouts::is_count(f[3], u32::MAX as nat) && layouts::is_count(f[4], u32::MAX as nat)
            && (f[5] == seq![65u8] || f[5] == seq![86u8]) && f.len() > 6
            && !layouts::is_amount(f[6]) ==> is_no_amount(f[6], e, "price"),
        layouts::is_count(f[3], u32::MAX as nat) && layouts::is_count(f[4], u32::MAX as nat)
            && (f[5] == seq![65u8] || f[5] == seq![86u8]) && layouts::is_amount(f[6])
            && f.len() == 7 ==> lacks(f, e, "quantity"),
        layouts::is_count(f[3], u32::MAX as nat) && layouts::is_count(f[4], u32::MAX as nat)
            && (f[5] == seq![65u8] || f[5] == seq![86u8]) && layouts::is_amount(f[6])
            && f.len() > 7 && !layouts::is_count(f[7], u64::MAX as nat)
            ==> e == (ParseError::BadInteger { field: "quantity" }),
        layouts::is_count(f[3], u32::MAX as nat) && layouts::is_count(f[4], u32::MAX as nat)
            && (f[5] == seq![65u8] || f[5] == seq![86u8]) && layouts::is_amount(f[6])
            && layouts::is_count(f[7], u64::MAX as nat) && f.len() == 8
            ==> lacks(f, e, "broker id"),
        layouts::is_count(f[3], u32::MAX as nat) && layouts::is_count(f[4], u32::MAX as nat)
            && (f[5] == seq![65u8] || f[5] == seq![86u8]) && layouts::is_amount(f[6])
            && layouts::is_count(f[7], u64::MAX as nat) && f.len() > 8
            && !layouts::is_count(f[8], u32::MAX as nat)
            ==> e == (ParseError::BadInteger { field: "broker id" }),
        layouts::is_count(f[3], u32::MAX as nat) && layouts::is_count(f[4], u32::MAX as nat)
            && (f[5] == seq![65u8] || f[5] == seq![86u8]) && layouts::is_amount(f[6])
            && layouts::is_count(f[7], u64::MAX as nat)
            && layouts::is_count(f[8], u32::MAX as nat) && f.len() == 9
            ==> lacks(f, e, "DDMMHHMM"),
        layouts::is_count(f[3], u32::MAX as nat) && layouts::is_count(f[4], u32::MAX as nat)
            && (f[5] == seq![65u8] || f[5] == seq![86u8]) && layouts::is_amount(f[6])
            && layouts::is_count(f[7], u64::MAX as nat)
            && layouts::is_count(f[8], u32::MAX as nat) && f.len() > 9
            && !layouts::is_count(f[9], u32::MAX as nat)
            ==> e == (ParseError::BadInteger { field: "DDMMHHMM" }),
        layouts::is_count(f[3], u32::MAX as nat) && layouts::is_count(f[4], u32::MAX as nat)
            && (f[5] == seq![65u8] || f[5] == seq![86u8]) && layouts::is_amount(f[6])
            && layouts::is_count(f[7], u64::MAX as nat)
            && layouts::is_count(f[8], u32::MAX as nat)
            && layouts::is_count(f[9], u32::MAX as nat) && f.len() == 11
            ==> lacks(f, e, "offer type"),
        layouts::is_count(f[3], u32::MAX as nat) && layouts::is_count(f[4], u32::MAX as nat)
            && (f[5] == seq![65u8] || f[5] == seq![86u8]) && layouts::is_amount(f[6])
            && layouts::is_count(f[7], u64::MAX as nat)
            && layouts::is_count(f[8], u32::MAX as nat)
            && layouts::is_count(f[9], u32::MAX as nat) && f.len() > 11 && f[11].len() != 1
            ==> e == (ParseError::InvalidField {
            field: "offer type",
            reason: "expected one byte (L or O)",
        }),
{
    layouts::lemma_letters();
    layouts::lemma_frame(f, Header::Book);
    layouts::lemma_letters_differ(85, 65);
    lemma_counts(f[3], u32::MAX as nat);
    lemma_counts(f[4], u32::MAX as nat);
    lemma_sides(f[5]);
    if f.len() > 6 {
        lemma_amounts(f[6], "price");
    }
    lemma_counts(f[7], u64::MAX as nat);
    lemma_counts(f[8], u32::MAX as nat);
    lemma_counts(f[9], u32::MAX as nat);
    assert(bqt::fault(f) == Some(e));
}

/// Only whole entries are moved in the detailed book.
pub proof fn law_parsed_book_update(f: Seq<Seq<u8>>, msg: ProtocolMessage)
    requires
        f.len() >= 2,
        f[0] == seq![66u8],
        notices::are_fields(f, 1),
        f.len() >= 3,
        f[2] == seq![85u8],
        layouts::reads(FrameKind::Newline, f, msg),
    ensures
        f.len() >= 10,
        layouts::is_count(f[3], u32::MAX as nat),
        layouts::is_count(f[4], u32::MAX as nat),
        (f[5] == seq![65u8] || f[5] == seq![86u8]),
        layouts::is_amount(f[6]),
        layouts::is_count(f[7], u64::MAX as nat),
        layouts::is_count(f[8], u32::MAX as nat),
        layouts::is_count(f[9], u32::MAX as nat),
        f.len() == 10 || f.len() >= 12 && f[11].len() == 1,
{
    layouts::lemma_letters();
    layouts::lemma_frame(f, Header::Book);
    layouts::lemma_letters_differ(85, 65);
    lemma_counts(f[3], u32::MAX as nat);
    lemma_counts(f[4], u32::MAX as nat);
    lemma_sides(f[5]);
    if f.len() > 6 {
        lemma_amounts(f[6], "price");
    }
    lemma_counts(f[7], u64::MAX as nat);
    lemma_counts(f[8], u32::MAX as nat);
    lemma_counts(f[9], u32::MAX as nat);
}

/// What is wrong with a delete of the detailed book.
pub proof fn law_refused_book_delete(f: Seq<Seq<u8>>, e: ParseError)
    requires
        f.len() >= 2,
        f[0] == seq![66u8],
        notices::are_fields(f, 1),
        f.len() >= 3,
        f[2] == seq![68u8],
        layouts::refuses(FrameKind::Newline, f, e),
    ensures
        f.len() == 3 ==> lacks(f, e, "delete kind"),
        f.len() > 3 && f[3] != seq![49u8] && f[3] != seq![50u8]
            ==> e == (ParseError::InvalidField {
            field: "delete kind",
            reason: "expected 1, 2 or 3",
        }),
        f.len() > 3 && (f[3] == seq![49u8] || f[3] == seq![50u8]) && f.len() == 4
            ==> lacks(f, e, "side"),
        f.len() > 3 && (f[3] == seq![49u8] || f[3] == seq![50u8]) && f.len() > 4
            && !(f[4] == seq![65u8] || f[4] == seq![86u8]) ==> is_no_side(f[4], e, "book side"),
        f.len() > 3 && (f[3] == seq![49u8] || f[3] == seq![50u8])
            && (f[4] == seq![65u8] || f[4] == seq![86u8]) && f.len() == 5
            ==> lacks(f, e, "position"),
        f.len() > 3 && (f[3] == seq![49u8] || f[3] == seq![50u8])
            && (f[4] == seq![65u8] || f[4] == seq![86u8]) && f.len() > 5
            && !layouts::is_count(f[5], u32::MAX as nat)
            ==> e == (ParseError::BadInteger { field: "position" }),
{
    layouts::lemma_letters();
    layouts::lemma_frame(f, Header::Book);
    layouts::lemma_letters_differ(68, 65);
    layouts::lemma_letters_differ(68, 85);
    layouts::lemma_letters_differ(49, 51);
    layouts::lemma_letters_differ(50, 51);
    layouts::lemma_letters_differ(49, 50);
    lemma_sides(f[4]);
    lemma_counts(f[5], u32::MAX as nat);
    assert(bqt::fault(f) == Some(e));
}

/// Only three deletes are known in the detailed book, and two of them give side and
/// position.
pub proof fn law_parsed_book_delete(f: Seq<Seq<u8>>, msg: ProtocolMessage)
    requires
        f.len() >= 2,
        f[0] == seq![66u8],
        notices::are_fields(f, 1),
        f.len() >= 3,
        f[2] == seq![68u8],
        layouts::reads(FrameKind::Newline, f, msg),
    ensures
        f.len() >= 4,
        f[3] == seq![51u8] || (f[3] == seq![49u8] || f[3] == seq![50u8]) && f.len() >= 6 && (f[4]
            == seq![65u8] || f[4] == seq![86u8]) && layouts::is_count(f[5], u32::MAX as nat),
{
    layouts::lemma_letters();
    layouts::lemma_frame(f, Header::Book);
    layouts::lemma_letters_differ(68, 65);
    layouts::lemma_letters_differ(68, 85);
    lemma_sides(f[4]);
    lemma_counts(f[5], u32::MAX as nat);
}

/// What is wrong with another frame of the detailed book.
pub proof fn law_refused_book(f: Seq<Seq<u8>>, e: ParseError)
    requires
        f.len() >= 2,
        f[0] == seq![66u8],
        notices::are_fields(f, 1),
        f.len() > 2 ==> f[2] != seq![65u8] && f[2] != seq![85u8] && f[2] != seq![68u8],
        layouts::refuses(FrameKind::Newline, f, e),
    ensures
        f.len() == 2 ==> lacks(f, e, "book op"),
        f.len() > 2 ==> e == (ParseError::InvalidField {
            field: "book op",
            reason: "expected A, U, D, or E",
        }),
{
    layouts::lemma_letters();
    layouts::lemma_frame(f, Header::Book);
    assert(bqt::fault(f) == Some(e));
}

/// Only four letters are known in the detailed book.
pub proof fn law_parsed_book(f: Seq<Seq<u8>>, msg: ProtocolMessage)
    requires
        f.len() >= 2,
        f[0] == seq![66u8],
        notices::are_fields(f, 1),
        layouts::reads(FrameKind::Newline, f, msg),
    ensures
        f.len() >= 3,
        f[2] == seq![65u8] || f[2] == seq![85u8] || f[2] == seq![68u8] || f[2] == seq![69u8],
{
    layouts::lemma_letters();
    layouts::lemma_frame(f, Header::Book);
}

/// What is wrong with a level of the aggregated book.
pub proof fn law_refused_level(f: Seq<Seq<u8>>, e: ParseError)
    requires
        f.len() >= 2,
        f[0] == seq![90u8],
        notices::are_fields(f, 1),
        f.len() >= 3,
        f[2] == seq![65u8] || f[2] == seq![85u8],
        layouts::refuses(FrameKind::Newline, f, e),
    ensures
        f.len() == 3 ==> lacks(f, e, "position"),
        f.len() > 3 && !layouts::is_count(f[3], u32::MAX as nat)
            ==> e == (ParseError::BadInteger { field: "position" }),
        layouts::is_count(f[3], u32::MAX as nat) && f.len() == 4 ==> lacks(f, e, "side"),
        layouts::is_count(f[3], u32::MAX as nat) && f.len() > 4
            && !(f[4] == seq![65u8] || f[4] == seq![86u8])
            ==> is_no_side(f[4], e, "agg book side"),
        layouts::is_count(f[3], u32::MAX as nat) && (f[4] == seq![65u8] || f[4] == seq![86u8])
            && f.len() == 5 ==> lacks(f, e, "price"),
        layouts::is_count(f[3], u32::MAX as nat) && (f[4] == seq![65u8] || f[4] == seq![86u8])
            && f.len() > 5 && !layouts::is_amount(f[5]) ==> is_no_amount(f[5], e, "price"),
        layouts::is_count(f[3], u32::MAX as nat) && (f[4] == seq![65u8] || f[4] == seq![86u8])
            && layouts::is_amount(f[5]) && f.len() == 6 ==> lacks(f, e, "quantity"),
        layouts::is_count(f[3], u32::MAX as nat) && (f[4] == seq![65u8] || f[4] == seq![86u8])
            && layouts::is_amount(f[5]) && f.len() > 6
            && !layouts::is_count(f[6], u64::MAX as nat)
            ==> e == (ParseError::BadInteger { field: "quantity" }),
        layouts::is_count(f[3], u32::MAX as nat) && (f[4] == seq![65u8] || f[4] == seq![86u8])
            && layouts::is_amount(f[5]) && layouts::is_count(f[6], u64::MAX as nat)
            && f.len() == 7 ==> lacks(f, e, "offer count"),
        layouts::is_count(f[3], u32::MAX as nat) && (f[4] == seq![65u8] || f[4] == seq![86u8])
            && layouts::is_amount(f[5]) && layouts::is_count(f[6], u64::MAX as nat) && f.len() > 7
            && !layouts::is_count(f[7], u32::MAX as nat)
            ==> e == (ParseError::BadInteger { field: "offer count" }),
        layouts::is_count(f[3], u32::MAX as nat) && (f[4] == seq![65u8] || f[4] == seq![86u8])
            && layouts::is_amount(f[5]) && layouts::is_count(f[6], u64::MAX as nat)
            && layouts::is_count(f[7], u32::MAX as nat) && f.len() == 8
            ==> lacks(f, e, "DDMMHHMM"),
        layouts::is_count(f[3], u32::MAX as nat) && (f[4] == seq![65u8] || f[4] == seq![86u8])
            && layouts::is_amount(f[5]) && layouts::is_count(f[6], u64::MAX as nat)
            && layouts::is_count(f[7], u32::MAX as nat) && f.len() > 8
            && !layouts::is_count(f[8], u32::MAX as nat)
            ==> e == (ParseError::BadInteger { field: "DDMMHHMM" }),
{
    layouts::lemma_letters();
    layouts::lemma_frame(f, Header::AggBook);
    lemma_counts(f[3], u32::MAX as nat);
    lemma_sides(f[4]);
    if f.len() > 5 {
        lemma_amounts(f[5], "price");
    }
    lemma_counts(f[6], u64::MAX as nat);
    lemma_counts(f[7], u32::MAX as nat);
    lemma_counts(f[8], u32::MAX as nat);
    assert(sab::fault(f) == Some(e));
}

/// Only whole levels are taken into the aggregated book.
pub proof fn law_parsed_level(f: Seq<Seq<u8>>, msg: ProtocolMessage)
    requires
        f.len() >= 2,
        f[0] == seq![90u8],
        notices::are_fields(f, 1),
        f.len() >= 3,
        f[2] == seq![65u8] || f[2] == seq![85u8],
        layouts::reads(FrameKind::Newline, f, msg),
    ensures
        f.len() >= 9,
        layouts::is_count(f[3], u32::MAX as nat),
        (f[4] == seq![65u8] || f[4] == seq![86u8]),
        layouts::is_amount(f[5]),
        layouts::is_count(f[6], u64::MAX as nat),
        layouts::is_count(f[7], u32::MAX as nat),
        layouts::is_count(f[8], u32::MAX as nat),
{
    layouts::lemma_letters();
    layouts::lemma_frame(f, Header::AggBook);
    lemma_counts(f[3], u32::MAX as nat);
    lemma_sides(f[4]);
    if f.len() > 5 {
        lemma_amounts(f[5], "price");
    }
    lemma_counts(f[6], u64::MAX as nat);
    lemma_counts(f[7], u32::MAX as nat);
    lemma_counts(f[8], u32::MAX as nat);
}

/// What is wrong with a delete of the aggregated book.
pub proof fn law_refused_level_delete(f: Seq<Seq<u8>>, e: ParseError)
    requires
        f.len() >= 2,
        f[0] == seq![90u8],
        notices::are_fields(f, 1),
        f.len() >= 3,
        f[2] == seq![68u8],
        layouts::refuses(FrameKind::Newline, f, e),
    ensures
        f.len() == 3 ==> lacks(f, e, "delete kind"),
        f.len() > 3 && f[3] != seq![49u8] && f[3] != seq![50u8]
            ==> e == (ParseError::InvalidField {
            field: "delete kind",
            reason: "expected 1 or 3",
        }),
        f.len() > 3 && f[3] == seq![49u8] && f.len() == 4 ==> lacks(f, e, "side"),
        f.len() > 3 && f[3] == seq![49u8] && f.len() > 4
            && !(f[4] == seq![65u8] || f[4] == seq![86u8])
            ==> is_no_side(f[4], e, "agg book side"),
        f.len() > 3 && f[3] == seq![49u8] && (f[4] == seq![65u8] || f[4] == seq![86u8])
            && f.len() == 5 ==> lacks(f, e, "position"),
        f.len() > 3 && f[3] == seq![49u8] && (f[4] == seq![65u8] || f[4] == seq![86u8])
            && f.len() > 5 && !layouts::is_count(f[5], u32::MAX as nat)
            ==> e == (ParseError::BadInteger { field: "position" }),
{
    layouts::lemma_letters();
    layouts::lemma_frame(f, Header::AggBook);
    layouts::lemma_letters_differ(68, 65);
    layouts::lemma_letters_differ(68, 85);
    layouts::lemma_letters_differ(49, 51);
    layouts::lemma_letters_differ(50, 51);
    layouts::lemma_letters_differ(49, 50);
    lemma_sides(f[4]);
    lemma_counts(f[5], u32::MAX as nat);
    assert(sab::fault(f) == Some(e));
}

/// Only two deletes are known in the aggregated book, and one gives side and position.
pub proof fn law_parsed_level_delete(f: Seq<Seq<u8>>, msg: ProtocolMessage)
    requires
        f.len() >= 2,
        f[0] == seq![90u8],
        notices::are_fields(f, 1),
        f.len() >= 3,
        f[2] == seq![68u8],
        layouts::reads(FrameKind::Newline, f, msg),
    ensures
        f.len() >= 4,
        f[3] == seq![51u8] || f[3] == seq![49u8] && f.len() >= 6 && (f[4] == seq![65u8] || f[4]
            == seq![86u8]) && layouts::is_count(f[5], u32::MAX as nat),
{
    layouts::lemma_letters();
    layouts::lemma_frame(f, Header::AggBook);
    layouts::lemma_letters_differ(68, 65);
    layouts::lemma_letters_differ(68, 85);
    lemma_sides(f[4]);
    lemma_counts(f[5], u32::MAX as nat);
}

/// What is wrong with another frame of the aggregated book.
pub proof fn law_refused_levels(f: Seq<Seq<u8>>, e: ParseError)
    requires
        f.len() >= 2,
        f[0] == seq![90u8],
        notices::are_fields(f, 1),
        f.len() > 2 ==> f[2] != seq![65u8] && f[2] != seq![85u8] && f[2] != seq![68u8],
        layouts::refuses(FrameKind::Newline, f, e),
    ensures
        f.len() == 2 ==> lacks(f, e, "agg book op"),
        f.len() > 2 ==> e == (ParseError::InvalidField {
            field: "agg book op",
            reason: "expected A, U, D, or E",
        }),
{
    layouts::lemma_letters();
    layouts::lemma_frame(f, Header::AggBook);
    assert(sab::fault(f) == Some(e));
}

/// Only four letters are known in the aggregated book.
pub proof fn law_parsed_levels(f: Seq<Seq<u8>>, msg: ProtocolMessage)
    requires
        f.len() >= 2,
        f[0] == seq![90u8],
        notices::are_fields(f, 1),
        layouts::reads(FrameKind::Newline, f, msg),
    ensures
        f.len() >= 3,
        f[2] == seq![65u8] || f[2] == seq![85u8] || f[2] == seq![68u8] || f[2] == seq![69u8],
{
    layouts::lemma_letters();
    layouts::lemma_frame(f, Header::AggBook);
}

/// What is wrong with the price or the first four flows of volume at price.
pub proof fn law_refused_volume_flow(f: Seq<Seq<u8>>, e: ParseError)
    requires
        f.len() >= 2,
        f[0] == seq![86u8, 65, 80],
        notices::are_fields(f, 1),
        f.len() > 2 ==> f[2] != seq![69u8],
        layouts::refuses(FrameKind::Newline, f, e),
    ensures
        f.len() == 2 ==> lacks(f, e, "price or terminator"),
        f.len() > 2 && !layouts::is_amount(f[2]) ==> is_no_amount(f[2], e, "vap price"),
        layouts::is_amount(f[2]) && f.len() == 3 ==> lacks(f, e, "vap buyer_trades"),
        layouts::is_amount(f[2]) && f.len() > 3 && !layouts::is_amount(f[3])
            ==> is_no_amount(f[3], e, "vap buyer_trades"),
        layouts::is_amount(f[2]) && layouts::is_amount(f[3]) && f.len() == 4
            ==> lacks(f, e, "vap buyer_volume"),
        layouts::is_amount(f[2]) && layouts::is_amount(f[3]) && f.len() > 4
            && !layouts::is_amount(f[4]) ==> is_no_amount(f[4], e, "vap buyer_volume"),
        layouts::is_amount(f[2]) && layouts::is_amount(f[3]) && layouts::is_amount(f[4])
            && f.len() == 5 ==> lacks(f, e, "vap seller_trades"),
        layouts::is_amount(f[2]) && layouts::is_amount(f[3]) && layouts::is_amount(f[4])
            && f.len() > 5 && !layouts::is_amount(f[5])
            ==> is_no_amount(f[5], e, "vap seller_trades"),
        layouts::is_amount(f[2]) && layouts::is_amount(f[3]) && layouts::is_amount(f[4])
            && layouts::is_amount(f[5]) && f.len() == 6 ==> lacks(f, e, "vap seller_volume"),
        layouts::is_amount(f[2]) && layouts::is_amount(f[3]) && layouts::is_amount(f[4])
            && layouts::is_amount(f[5]) && f.len() > 6 && !layouts::is_amount(f[6])
            ==> is_no_amount(f[6], e, "vap seller_volume"),
        layouts::is_amount(f[2]) && layouts::is_amount(f[3]) && layouts::is_amount(f[4])
            && layouts::is_amount(f[5]) && layouts::is_amount(f[6]) && f.len() == 7
            ==> lacks(f, e, "vap direct_trades"),
        layouts::is_amount(f[2]) && layouts::is_amount(f[3]) && layouts::is_amount(f[4])
            && layouts::is_amount(f[5]) && layouts::is_amount(f[6]) && f.len() > 7
            && !layouts::is_amount(f[7]) ==> is_no_amount(f[7], e, "vap direct_trades"),
        layouts::is_amount(f[2]) && layouts::is_amount(f[3]) && layouts::is_amount(f[4])
            && layouts::is_amount(f[5]) && layouts::is_amount(f[6]) && layouts::is_amount(f[7])
            && f.len() == 8 ==> lacks(f, e, "vap direct_volume"),
        layouts::is_amount(f[2]) && layouts::is_amount(f[3]) && layouts::is_amount(f[4])
            && layouts::is_amount(f[5]) && layouts::is_amount(f[6]) && layouts::is_amount(f[7])
            && f.len() > 8 && !layouts::is_amount(f[8])
            ==> is_no_amount(f[8], e, "vap direct_volume"),
        layouts::is_amount(f[2]) && layouts::is_amount(f[3]) && layouts::is_amount(f[4])
            && layouts::is_amount(f[5]) && layouts::is_amount(f[6]) && layouts::is_amount(f[7])
            && layouts::is_amount(f[8]) && f.len() == 9 ==> lacks(f, e, "vap undefined_trades"),
        layouts::is_amount(f[2]) && layouts::is_amount(f[3]) && layouts::is_amount(f[4])
            && layouts::is_amount(f[5]) && layouts::is_amount(f[6]) && layouts::is_amount(f[7])
            && layouts::is_amount(f[8]) && f.len() > 9 && !layouts::is_amount(f[9])
            ==> is_no_amount(f[9], e, "vap undefined_trades"),
        layouts::is_amount(f[2]) && layouts::is_amount(f[3]) && layouts::is_amount(f[4])
            && layouts::is_amount(f[5]) && layouts::is_amount(f[6]) && layouts::is_amount(f[7])
            && layouts::is_amount(f[8]) && layouts::is_amount(f[9]) && f.len() == 10
            ==> lacks(f, e, "vap undefined_volume"),
        layouts::is_amount(f[2]) && layouts::is_amount(f[3]) && layouts::is_amount(f[4])
            && layouts::is_amount(f[5]) && layouts::is_amount(f[6]) && layouts::is_amount(f[7])
            && layouts::is_amount(f[8]) && layouts::is_amount(f[9]) && f.len() > 10
            && !layouts::is_amount(f[10]) ==> is_no_amount(f[10], e, "vap undefined_volume"),
{
    layouts::lemma_letters();
    layouts::lemma_frame(f, Header::Vap);
    if f.len() > 2 {
        lemma_amounts(f[2], "vap price");
    }
    if f.len() > 3 {
        lemma_amounts(f[3], "vap buyer_trades");
    }
    if f.len() > 4 {
        lemma_amounts(f[4], "vap buyer_volume");
    }
    if f.len() > 5 {
        lemma_amounts(f[5], "vap seller_trades");
    }
    if f.len() > 6 {
        lemma_amounts(f[6], "vap seller_volume");
    }
    if f.len() > 7 {
        lemma_amounts(f[7], "vap direct_trades");
    }
    if f.len() > 8 {
        lemma_amounts(f[8], "vap direct_volume");
    }
    if f.len() > 9 {
        lemma_amounts(f[9], "vap undefined_trades");
    }
    if f.len() > 10 {
        lemma_amounts(f[10], "vap undefined_volume");
    }
    assert(vap::fault(f) == Some(e));
}

/// What is wrong with the period or the last two flows of volume at price.
pub proof fn law_refused_volume_rest(f: Seq<Seq<u8>>, e: ParseError)
    requires
        f.len() >= 2,
        f[0] == seq![86u8, 65, 80],
        notices::are_fields(f, 1),
        f.len() > 10,
        f[2] != seq![69u8],
        forall|i: int| 2 <= i < 11 ==> layouts::is_amount(#[trigger] f[i]),
        layouts::refuses(FrameKind::Newline, f, e),
    ensures
        f.len() == 11 ==> lacks(f, e, "vap period"),
        f.len() > 11 && !(f[11].len() == 0 || layouts::is_count(f[11], u32::MAX as nat))
            ==> e == (ParseError::BadInteger { field: "vap period" }),
        f.len() > 11 && (f[11].len() == 0 || layouts::is_count(f[11], u32::MAX as nat))
            && f.len() == 12 ==> lacks(f, e, "vap rlp_trades"),
        f.len() > 11 && (f[11].len() == 0 || layouts::is_count(f[11], u32::MAX as nat))
            && f.len() > 12 && !layouts::is_amount(f[12])
            ==> is_no_amount(f[12], e, "vap rlp_trades"),
        f.len() > 11 && (f[11].len() == 0 || layouts::is_count(f[11], u32::MAX as nat))
            && layouts::is_amount(f[12]) && f.len() == 13 ==> lacks(f, e, "vap rlp_volume"),
        f.len() > 11 && (f[11].len() == 0 || layouts::is_count(f[11], u32::MAX as nat))
            && layouts::is_amount(f[12]) && f.len() > 13 && !layouts::is_amount(f[13])
            ==> is_no_amount(f[13], e, "vap rlp_volume"),
        f.len() > 11 && (f[11].len() == 0 || layouts::is_count(f[11], u32::MAX as nat))
            && layouts::is_amount(f[12]) && layouts::is_amount(f[13]) && f.len() == 14
            ==> lacks(f, e, "vap auction_trades"),
        f.len() > 11 && (f[11].len() == 0 || layouts::is_count(f[11], u32::MAX as nat))
            && layouts::is_amount(f[12]) && layouts::is_amount(f[13]) && f.len() > 14
            && !layouts::is_amount(f[14]) ==> is_no_amount(f[14], e, "vap auction_trades"),
        f.len() > 11 && (f[11].len() == 0 || layouts::is_count(f[11], u32::MAX as nat))
            && layouts::is_amount(f[12]) && layouts::is_amount(f[13]) && layouts::is_amount(f[14])
            && f.len() == 15 ==> lacks(f, e, "vap auction_volume"),
        f.len() > 11 && (f[11].len() == 0 || layouts::is_count(f[11], u32::MAX as nat))
            && layouts::is_amount(f[12]) && layouts::is_amount(f[13]) && layouts::is_amount(f[14])
            && f.len() > 15 && !layouts::is_amount(f[15])
            ==> is_no_amount(f[15], e, "vap auction_volume"),
{
    layouts::lemma_letters();
    layouts::lemma_frame(f, Header::Vap);
    lemma_zero_count();
    lemma_counts(f[11], u32::MAX as nat);
    if f.len() > 2 {
        lemma_amounts(f[2], "vap price");
    }
    if f.len() > 3 {
        lemma_amounts(f[3], "vap buyer_trades");
    }
    if f.len() > 4 {
        lemma_amounts(f[4], "vap buyer_volume");
    }
    if f.len() > 5 {
        lemma_amounts(f[5], "vap seller_trades");
    }
    if f.len() > 6 {
        lemma_amounts(f[6], "vap seller_volume");
    }
    if f.len() > 7 {
        lemma_amounts(f[7], "vap direct_trades");
    }
    if f.len() > 8 {
        lemma_amounts(f[8], "vap direct_volume");
    }
    if f.len() > 9 {
        lemma_amounts(f[9], "vap undefined_trades");
    }
    if f.len() > 10 {
        lemma_amounts(f[10], "vap undefined_volume");
    }
    if f.len() > 12 {
        lemma_amounts(f[12], "vap rlp_trades");
    }
    if f.len() > 13 {
        lemma_amounts(f[13], "vap rlp_volume");
    }
    if f.len() > 14 {
        lemma_amounts(f[14], "vap auction_trades");
    }
    if f.len() > 15 {
        lemma_amounts(f[15], "vap auction_volume");
    }
    assert(vap::flow_fault(f) is None);
    assert(vap::fault(f) == Some(e));
}

/// Only whole data lines, and ends with a period or none, are taken as volume at
/// price.
pub proof fn law_parsed_volume(f: Seq<Seq<u8>>, msg: ProtocolMessage)
    requires
        f.len() >= 2,
        f[0] == seq![86u8, 65, 80],
        notices::are_fields(f, 1),
        layouts::reads(FrameKind::Newline, f, msg),
    ensures
        f.len() >= 3,
        f[2] != seq![69u8] ==> f.len() >= 16,
        f[2] != seq![69u8] ==> layouts::is_amount(f[2]),
        f[2] != seq![69u8] ==> layouts::is_amount(f[3]),
        f[2] != seq![69u8] ==> layouts::is_amount(f[4]),
        f[2] != seq![69u8] ==> layouts::is_amount(f[5]),
        f[2] != seq![69u8] ==> layouts::is_amount(f[6]),
        f[2] != seq![69u8] ==> layouts::is_amount(f[7]),
        f[2] != seq![69u8] ==> layouts::is_amount(f[8]),
        f[2] != seq![69u8] ==> layouts::is_amount(f[9]),
        f[2] != seq![69u8] ==> layouts::is_amount(f[10]),
        f[2] != seq![69u8] ==> layouts::is_amount(f[12]),
        f[2] != seq![69u8] ==> layouts::is_amount(f[13]),
        f[2] != seq![69u8] ==> layouts::is_amount(f[14]),
        f[2] != seq![69u8] ==> layouts::is_amount(f[15]),
        f[2] != seq![69u8] ==> f[11].len() == 0 || layouts::is_count(f[11], u32::MAX as nat),
        f[2] == seq![69u8] && f.len() > 3 ==> f[3].len() == 0 || layouts::is_count(
            f[3],
            u32::MAX as nat,
        ),
{
    layouts::lemma_letters();
    layouts::lemma_frame(f, Header::Vap);
    lemma_zero_count();
    lemma_counts(f[3], u32::MAX as nat);
    lemma_counts(f[11], u32::MAX as nat);
    if f.len() > 2 {
        lemma_amounts(f[2], "vap price");
    }
    if f.len() > 3 {
        lemma_amounts(f[3], "vap buyer_trades");
    }
    if f.len() > 4 {
        lemma_amounts(f[4], "vap buyer_volume");
    }
    if f.len() > 5 {
        lemma_amounts(f[5], "vap seller_trades");
    }
    if f.len() > 6 {
        lemma_amounts(f[6], "vap seller_volume");
    }
    if f.len() > 7 {
        lemma_amounts(f[7], "vap direct_trades");
    }
    if f.len() > 8 {
        lemma_amounts(f[8], "vap direct_volume");
    }
    if f.len() > 9 {
        lemma_amounts(f[9], "vap undefined_trades");
    }
    if f.len() > 10 {
        lemma_amounts(f[10], "vap undefined_volume");
    }
    if f.len() > 12 {
        lemma_amounts(f[12], "vap rlp_trades");
    }
    if f.len() > 13 {
        lemma_amounts(f[13], "vap rlp_volume");
    }
    if f.len() > 14 {
        lemma_amounts(f[14], "vap auction_trades");
    }
    if f.len() > 15 {
        lemma_amounts(f[15], "vap auction_volume");
    }
}

/// What is wrong with the end of volume at price: its period, and nothing else.
pub proof fn law_refused_volume_end(f: Seq<Seq<u8>>, e: ParseError)
    requires
        f.len() >= 2,
        f[0] == seq![86u8, 65, 80],
        notices::are_fields(f, 1),
        f.len() > 2 && f[2] == seq![69u8],
        layouts::refuses(FrameKind::Newline, f, e),
    ensures
        true
            ==> f.len() > 3 && f[3].len() > 0 && !layouts::is_count(f[3], u32::MAX as nat) && e == (
        ParseError::BadInteger { field: "vap period" }),
{
    layouts::lemma_letters();
    layouts::lemma_frame(f, Header::Vap);
    lemma_counts(f[3], u32::MAX as nat);
}

/// What is wrong with a trade on a subscription.
pub proof fn law_refused_subscribed_trade(f: Seq<Seq<u8>>, e: ParseError)
    requires
        f.len() >= 2,
        f[0] == seq![86u8],
        notices::are_fields(f, 1),
        f.len() == 12 || f.len() == 13 && f[12].len() == 0,
        f[2] == seq![65u8],
        layouts::refuses(FrameKind::Newline, f, e),
    ensures
        !layouts::is_count(f[3], u32::MAX as nat)
            ==> e == (ParseError::BadInteger { field: "trade time" }),
        layouts::is_count(f[3], u32::MAX as nat) && !layouts::is_amount(f[4])
            ==> is_no_amount(f[4], e, "trade price"),
        layouts::is_count(f[3], u32::MAX as nat) && layouts::is_amount(f[4])
            && !layouts::is_count(f[5], u32::MAX as nat)
            ==> e == (ParseError::BadInteger { field: "trade broker buy" }),
        layouts::is_count(f[3], u32::MAX as nat) && layouts::is_amount(f[4])
            && layouts::is_count(f[5], u32::MAX as nat)
            && !layouts::is_count(f[6], u32::MAX as nat)
            ==> e == (ParseError::BadInteger { field: "trade broker sell" }),
        layouts::is_count(f[3], u32::MAX as nat) && layouts::is_amount(f[4])
            && layouts::is_count(f[5], u32::MAX as nat)
            && layouts::is_count(f[6], u32::MAX as nat)
            && !layouts::is_count(f[7], u64::MAX as nat)
            ==> e == (ParseError::BadInteger { field: "trade quantity" }),
        layouts::is_count(f[3], u32::MAX as nat) && layouts::is_amount(f[4])
            && layouts::is_count(f[5], u32::MAX as nat)
            && layouts::is_count(f[6], u32::MAX as nat)
            && layouts::is_count(f[7], u64::MAX as nat)
            && !layouts::is_count(f[9], u16::MAX as nat)
            ==> e == (ParseError::BadInteger { field: "trade condition" }),
        layouts::is_count(f[3], u32::MAX as nat) && layouts::is_amount(f[4])
            && layouts::is_count(f[5], u32::MAX as nat)
            && layouts::is_count(f[6], u32::MAX as nat)
            && layouts::is_count(f[7], u64::MAX as nat)
            && layouts::is_count(f[9], u16::MAX as nat)
            ==> f[10].len() != 1 && e == (ParseError::InvalidField {
            field: "trade aggressor",
            reason: "expected exactly one byte",
        }),
{
    layouts::lemma_letters();
    layouts::lemma_frame(f, Header::Trade);
    let t = f.skip(3);
    assert(gqt::width(t) == 9);
    assert(t[0] == f[3] && t[1] == f[4] && t[2] == f[5] && t[3] == f[6] && t[4] == f[7]);
    assert(gqt::column(t, 6) == f[9] && gqt::column(t, 7) == f[10]);
    lemma_counts(f[3], u32::MAX as nat);
    if f.len() > 4 {
        lemma_amounts(f[4], "trade price");
    }
    lemma_counts(f[5], u32::MAX as nat);
    lemma_counts(f[6], u32::MAX as nat);
    lemma_counts(f[7], u64::MAX as nat);
    lemma_counts(f[9], u16::MAX as nat);
    assert(gqt::add_fault(t) == Some(e));
}

/// What is wrong with a trade on a snapshot.
pub proof fn law_refused_snapshot_trade(f: Seq<Seq<u8>>, e: ParseError)
    requires
        f.len() >= 2,
        f[0] == seq![86u8],
        notices::are_fields(f, 1),
        f.len() == 13 && f[12].len() > 0 || f.len() == 14 && f[13].len() == 0,
        f[2] == seq![65u8],
        layouts::refuses(FrameKind::Newline, f, e),
    ensures
        !layouts::is_count(f[3], u32::MAX as nat)
            ==> e == (ParseError::BadInteger { field: "trade time" }),
        layouts::is_count(f[3], u32::MAX as nat) && !layouts::is_amount(f[4])
            ==> is_no_amount(f[4], e, "trade price"),
        layouts::is_count(f[3], u32::MAX as nat) && layouts::is_amount(f[4])
            && !layouts::is_count(f[5], u32::MAX as nat)
            ==> e == (ParseError::BadInteger { field: "trade broker buy" }),
        layouts::is_count(f[3], u32::MAX as nat) && layouts::is_amount(f[4])
            && layouts::is_count(f[5], u32::MAX as nat)
            && !layouts::is_count(f[6], u32::MAX as nat)
            ==> e == (ParseError::BadInteger { field: "trade broker sell" }),
        layouts::is_count(f[3], u32::MAX as nat) && layouts::is_amount(f[4])
            && layouts::is_count(f[5], u32::MAX as nat)
            && layouts::is_count(f[6], u32::MAX as nat)
            && !layouts::is_count(f[7], u64::MAX as nat)
            ==> e == (ParseError::BadInteger { field: "trade quantity" }),
        layouts::is_count(f[3], u32::MAX as nat) && layouts::is_amount(f[4])
            && layouts::is_count(f[5], u32::MAX as nat)
            && layouts::is_count(f[6], u32::MAX as nat)
            && layouts::is_count(f[7], u64::MAX as nat)
            && !layouts::is_count(f[10], u16::MAX as nat)
            ==> e == (ParseError::BadInteger { field: "trade condition" }),
        layouts::is_count(f[3], u32::MAX as nat) && layouts::is_amount(f[4])
            && layouts::is_count(f[5], u32::MAX as nat)
            && layouts::is_count(f[6], u32::MAX as nat)
            && layouts::is_count(f[7], u64::MAX as nat)
            && layouts::is_count(f[10], u16::MAX as nat)
            ==> f[11].len() != 1 && e == (ParseError::InvalidField {
            field: "trade aggressor",
            reason: "expected exactly one byte",
        }),
{
    layouts::lemma_letters();
    layouts::lemma_frame(f, Header::Trade);
    let t = f.skip(3);
    assert(gqt::width(t) == 10);
    assert(t[0] == f[3] && t[1] == f[4] && t[2] == f[5] && t[3] == f[6] && t[4] == f[7]);
    assert(gqt::column(t, 6) == f[10] && gqt::column(t, 7) == f[11]);
    lemma_counts(f[3], u32::MAX as nat);
    if f.len() > 4 {
        lemma_amounts(f[4], "trade price");
    }
    lemma_counts(f[5], u32::MAX as nat);
    lemma_counts(f[6], u32::MAX as nat);
    lemma_counts(f[7], u64::MAX as nat);
    lemma_counts(f[10], u16::MAX as nat);
    assert(gqt::add_fault(t) == Some(e));
}

/// What is wrong with another trade frame: the count of its fields, a missing id, or
/// its letter.
pub proof fn law_refused_trade(f: Seq<Seq<u8>>, e: ParseError)
    requires
        f.len() >= 2,
        f[0] == seq![86u8],
        notices::are_fields(f, 1),
        f.len() > 2 && f[2] == seq![65u8] ==> f.len() < 12 || f.len() > 14 || (f.len() == 14
            && f[13].len() > 0),
        layouts::refuses(FrameKind::Newline, f, e),
    ensures
        f.len() == 2 ==> lacks(f, e, "trade op"),
        f.len() > 2 && f[2] == seq![65u8] ==> e == (ParseError::InvalidField {
            field: "trade fields",
            reason: "expected 9 (subscribe) or 10 (snapshot) fields after A",
        }),
        f.len() > 2 && f[2] == seq![68u8] ==> f.len() == 3 && lacks(f, e, "trade id"),
        f.len() > 2 && f[2] != seq![65u8] && f[2] != seq![68u8]
            ==> e == (ParseError::InvalidField {
            field: "trade op",
            reason: "expected A, D, R or E",
        }),
{
    layouts::lemma_letters();
    layouts::lemma_frame(f, Header::Trade);
    layouts::lemma_letters_differ(68, 65);
    let t = f.skip(3);
    if f.len() > 2 && f[2] == seq![65u8] {
        assert(t.len() == f.len() - 3);
        assert(f.len() > 12 ==> t.last() == f.last());
    }
}

/// Only four letters are known of trades; one that is taken back has an id.
pub proof fn law_parsed_trade(f: Seq<Seq<u8>>, msg: ProtocolMessage)
    requires
        f.len() >= 2,
        f[0] == seq![86u8],
        notices::are_fields(f, 1),
        layouts::reads(FrameKind::Newline, f, msg),
    ensures
        f.len() >= 3,
        f[2] == seq![65u8] || f[2] == seq![68u8] || f[2] == seq![82u8] || f[2] == seq![69u8],
        f[2] == seq![68u8] ==> f.len() >= 4,
{
    layouts::lemma_letters();
    layouts::lemma_frame(f, Header::Trade);
    layouts::lemma_letters_differ(68, 65);
}

/// Only whole trades are added.
pub proof fn law_parsed_added_trade(f: Seq<Seq<u8>>, msg: ProtocolMessage)
    requires
        f.len() >= 2,
        f[0] == seq![86u8],
        notices::are_fields(f, 1),
        f.len() > 2 && f[2] == seq![65u8],
        layouts::reads(FrameKind::Newline, f, msg),
    ensures
        f.len() == 12 || f.len() == 13 || f.len() == 14 && f[13].len() == 0,
        layouts::is_count(f[3], u32::MAX as nat),
        layouts::is_amount(f[4]),
        layouts::is_count(f[5], u32::MAX as nat),
        layouts::is_count(f[6], u32::MAX as nat),
        layouts::is_count(f[7], u64::MAX as nat),
        f.len() == 12 || f.len() == 13 && f[12].len() == 0 ==> layouts::is_count(
            f[9],
            u16::MAX as nat,
        ) && f[10].len() == 1,
        f.len() == 14 || f.len() == 13 && f[12].len() > 0 ==> layouts::is_count(
            f[10],
            u16::MAX as nat,
        ) && f[11].len() == 1,
{
    layouts::lemma_letters();
    layouts::lemma_frame(f, Header::Trade);
    let t = f.skip(3);
    assert(t.len() == f.len() - 3);
    assert(f.len() > 12 ==> t.last() == f.last());
    assert(gqt::add_fault(t) is None);
    assert(f.len() >= 12);
    assert(t[0] == f[3] && t[1] == f[4] && t[2] == f[5] && t[3] == f[6] && t[4] == f[7]);
    assert(t[6] == f[9] && t[7] == f[10]);
    assert(f.len() > 11 ==> t[8] == f[11]);
    lemma_counts(f[3], u32::MAX as nat);
    if f.len() > 4 {
        lemma_amounts(f[4], "trade price");
    }
    lemma_counts(f[5], u32::MAX as nat);
    lemma_counts(f[6], u32::MAX as nat);
    lemma_counts(f[7], u64::MAX as nat);
    lemma_counts(f[9], u16::MAX as nat);
    lemma_counts(f[10], u16::MAX as nat);
}

/// What is wrong with a live headline.
pub proof fn law_refused_headline(f: Seq<Seq<u8>>, e: ParseError)
    requires
        f.len() >= 2,
        f[0] == seq![79u8],
        notices::are_fields(f, 1),
        f[1] == seq![65u8],
        layouts::refuses(FrameKind::Newline, f, e),
    ensures
        f.len() == 2 ==> lacks(f, e, "agency"),
        f.len() == 3 ==> lacks(f, e, "code"),
        f.len() == 4 ==> lacks(f, e, "news date"),
        f.len() > 4 && !layouts::is_count(f[4], u32::MAX as nat)
            ==> e == (ParseError::BadInteger { field: "news date" }),
        layouts::is_count(f[4], u32::MAX as nat) && f.len() == 5 ==> lacks(f, e, "news time"),
        layouts::is_count(f[4], u32::MAX as nat) && f.len() > 5
            && !layouts::is_count(f[5], u32::MAX as nat)
            ==> e == (ParseError::BadInteger { field: "news time" }),
        layouts::is_count(f[4], u32::MAX as nat) && layouts::is_count(f[5], u32::MAX as nat)
            && f.len() == 6 ==> lacks(f, e, "news category"),
        layouts::is_count(f[4], u32::MAX as nat) && layouts::is_count(f[5], u32::MAX as nat)
            && f.len() > 6 && !layouts::is_count(f[6], u32::MAX as nat)
            ==> e == (ParseError::BadInteger { field: "news category" }),
        layouts::is_count(f[4], u32::MAX as nat) && layouts::is_count(f[5], u32::MAX as nat)
            && layouts::is_count(f[6], u32::MAX as nat) && f.len() == 7
            ==> lacks(f, e, "news title length"),
{
    layouts::lemma_letters();
    layouts::lemma_frame(f, Header::News);
    lemma_counts(f[4], u32::MAX as nat);
    lemma_counts(f[5], u32::MAX as nat);
    lemma_counts(f[6], u32::MAX as nat);
}

/// What is wrong with an item of a history list.
pub proof fn law_refused_history_item(f: Seq<Seq<u8>>, e: ParseError)
    requires
        f.len() >= 2,
        f[0] == seq![79u8],
        notices::are_fields(f, 1),
        f[1] == seq![76u8],
        layouts::refuses(FrameKind::Newline, f, e),
    ensures
        f.len() == 2 ==> lacks(f, e, "request id"),
        f.len() == 3 ==> lacks(f, e, "agency or END"),
        f.len() == 4 ==> lacks(f, e, "code"),
        f.len() == 5 ==> lacks(f, e, "news date"),
        f.len() > 5 && !layouts::is_count(f[5], u32::MAX as nat)
            ==> e == (ParseError::BadInteger { field: "news date" }),
        layouts::is_count(f[5], u32::MAX as nat) && f.len() == 6 ==> lacks(f, e, "news time"),
        layouts::is_count(f[5], u32::MAX as nat) && f.len() > 6
            && !layouts::is_count(f[6], u32::MAX as nat)
            ==> e == (ParseError::BadInteger { field: "news time" }),
        layouts::is_count(f[5], u32::MAX as nat) && layouts::is_count(f[6], u32::MAX as nat)
            && f.len() == 7 ==> lacks(f, e, "news category"),
        layouts::is_count(f[5], u32::MAX as nat) && layouts::is_count(f[6], u32::MAX as nat)
            && f.len() > 7 && !layouts::is_count(f[7], u32::MAX as nat)
            ==> e == (ParseError::BadInteger { field: "news category" }),
        layouts::is_count(f[5], u32::MAX as nat) && layouts::is_count(f[6], u32::MAX as nat)
            && layouts::is_count(f[7], u32::MAX as nat) && f.len() == 8
            ==> lacks(f, e, "news title length"),
{
    layouts::lemma_letters();
    layouts::lemma_frame(f, Header::News);
    layouts::lemma_letters_differ(76, 65);
    lemma_counts(f[5], u32::MAX as nat);
    lemma_counts(f[6], u32::MAX as nat);
    lemma_counts(f[7], u32::MAX as nat);
}

/// What is wrong with a body of news.
pub proof fn law_refused_news_body(f: Seq<Seq<u8>>, e: ParseError)
    requires
        f.len() >= 2,
        f[0] == seq![79u8],
        notices::are_fields(f, 1),
        f[1] == seq![78u8],
        layouts::refuses(FrameKind::Newline, f, e),
    ensures
        f.len() == 2 ==> lacks(f, e, "request id"),
        f.len() == 3 ==> lacks(f, e, "agency"),
        f.len() == 4 ==> lacks(f, e, "code"),
{
    layouts::lemma_letters();
    layouts::lemma_frame(f, Header::News);
    layouts::lemma_letters_differ(78, 65);
    layouts::lemma_letters_differ(78, 76);
}

/// What is wrong with another news frame.
pub proof fn law_refused_news(f: Seq<Seq<u8>>, e: ParseError)
    requires
        f.len() >= 2,
        f[0] == seq![79u8],
        notices::are_fields(f, 1),
        layouts::refuses(FrameKind::Newline, f, e),
    ensures
        f[1] != seq![65u8] && f[1] != seq![76u8] && f[1] != seq![78u8]
            ==> e == (ParseError::InvalidField {
            field: "news kind",
            reason: "expected A, L, or N",
        }),
{
    layouts::lemma_letters();
    layouts::lemma_frame(f, Header::News);
}

/// Only three letters are known of news, and headlines, history and bodies are whole.
pub proof fn law_parsed_news(f: Seq<Seq<u8>>, msg: ProtocolMessage)
    requires
        f.len() >= 2,
        f[0] == seq![79u8],
        notices::are_fields(f, 1),
        layouts::reads(FrameKind::Newline, f, msg),
    ensures
        f[1] == seq![65u8] || f[1] == seq![76u8] || f[1] == seq![78u8],
        f[1] == seq![65u8] ==> f.len() >= 8 && layouts::is_count(f[4], u32::MAX as nat)
            && layouts::is_count(f[5], u32::MAX as nat) && layouts::is_count(f[6], u32::MAX as nat),
        f[1] == seq![76u8] ==> f.len() >= 4 && (f[3] == seq![69u8, 78, 68] || f.len() >= 9
            && layouts::is_count(f[5], u32::MAX as nat) && layouts::is_count(f[6], u32::MAX as nat)
            && layouts::is_count(f[7], u32::MAX as nat)),
        f[1] == seq![78u8] ==> f.len() >= 5,
{
    layouts::lemma_letters();
    layouts::lemma_frame(f, Header::News);
    notices::lemma_end_word();
    layouts::lemma_letters_differ(76, 65);
    layouts::lemma_letters_differ(78, 65);
    layouts::lemma_letters_differ(78, 76);
    lemma_counts(f[4], u32::MAX as nat);
    lemma_counts(f[5], u32::MAX as nat);
    lemma_counts(f[6], u32::MAX as nat);
    lemma_counts(f[7], u32::MAX as nat);
}

/// What is wrong with a time of the server: its length, its date or its time.
pub proof fn law_refused_server_time(f: Seq<Seq<u8>>, e: ParseError)
    requires
        f.len() >= 2,
        f[0] == seq![71u8, 84, 67],
        notices::are_fields(f, 1),
        layouts::refuses(FrameKind::Newline, f, e),
    ensures
        f[1].len() != 14 ==> e == (ParseError::InvalidField {
            field: "server time",
            reason: "expected 14-digit YYYYMMDDHHMMSS",
        }),
        f[1].len() == 14 && !layouts::is_count(f[1].take(8), u32::MAX as nat)
            ==> e == (ParseError::BadInteger {
            field: "GTC date",
        }),
        f[1].len() == 14 && layouts::is_count(f[1].take(8), u32::MAX as nat)
            ==> !layouts::is_count(
            f[1].skip(8),
            u32::MAX as nat,
        ) && e == (ParseError::BadInteger { field: "GTC time" }),
{
    layouts::lemma_letters();
    layouts::lemma_frame(f, Header::ServerTime);
    lemma_counts(f[1].take(8), u32::MAX as nat);
    lemma_counts(f[1].skip(8), u32::MAX as nat);
}

/// A time of the server has fourteen digits.
pub proof fn law_parsed_server_time(f: Seq<Seq<u8>>, msg: ProtocolMessage)
    requires
        f.len() >= 2,
        f[0] == seq![71u8, 84, 67],
        notices::are_fields(f, 1),
        layouts::reads(FrameKind::Newline, f, msg),
    ensures
        f[1].len() == 14,
        layouts::is_count(f[1].take(8), u32::MAX as nat),
        layouts::is_count(f[1].skip(8), u32::MAX as nat),
{
    layouts::lemma_letters();
    layouts::lemma_frame(f, Header::ServerTime);
    lemma_counts(f[1].take(8), u32::MAX as nat);
    lemma_counts(f[1].skip(8), u32::MAX as nat);
}

/// What is wrong with a catalog line: it is too short.
pub proof fn law_refused_catalog_line(f: Seq<Seq<u8>>, e: ParseError)
    requires
        f.len() >= 2,
        f[0] == seq![67u8],
        notices::are_fields(f, 1),
        layouts::refuses(FrameKind::Newline, f, e),
    ensures
        f.len() >= 2 ==> f.len() == 2 && lacks(f, e, "ticker or end-sentinel"),
{
    layouts::lemma_letters();
    layouts::lemma_frame(f, Header::Catalog);
}

/// A catalog line has a market and a ticker.
pub proof fn law_parsed_catalog_line(f: Seq<Seq<u8>>, msg: ProtocolMessage)
    requires
        f.len() >= 2,
        f[0] == seq![67u8],
        notices::are_fields(f, 1),
        layouts::reads(FrameKind::Newline, f, msg),
    ensures
        f.len() >= 3,
{
    layouts::lemma_letters();
    layouts::lemma_frame(f, Header::Catalog);
}

/// What is wrong with a broker line.
pub proof fn law_refused_broker_line(f: Seq<Seq<u8>>, e: ParseError)
    requires
        f.len() >= 2,
        f[0] == seq![71u8],
        notices::are_fields(f, 1),
        layouts::refuses(FrameKind::Newline, f, e),
    ensures
        f.len() == 2 ==> lacks(f, e, "broker code"),
        f.len() == 3 ==> lacks(f, e, "broker name"),
        f.len() == 4 ==> lacks(f, e, "cedro id"),
        f.len() == 5 ==> lacks(f, e, "active flag"),
        f.len() > 5 ==> e == (ParseError::InvalidField {
            field: "active flag",
            reason: "expected '0' or '1'",
        }),
{
    layouts::lemma_letters();
    layouts::lemma_frame(f, Header::Broker);
}

/// What is wrong with an error of the server: its code.
pub proof fn law_refused_error(f: Seq<Seq<u8>>, e: ParseError)
    requires
        f.len() >= 2,
        f[0] == seq![69u8],
        notices::are_fields(f, 1),
        layouts::refuses(FrameKind::Newline, f, e),
    ensures
        f.len() >= 2
            ==> !layouts::is_count(f[1], u16::MAX as nat) && e == (ParseError::BadInteger {
            field: "error code",
        }),
{
    layouts::lemma_letters();
    layouts::lemma_frame(f, Header::Error);
    lemma_counts(f[1], u16::MAX as nat);
}

/// An error of the server has a code.
pub proof fn law_parsed_error(f: Seq<Seq<u8>>, msg: ProtocolMessage)
    requires
        f.len() >= 2,
        f[0] == seq![69u8],
        notices::are_fields(f, 1),
        layouts::reads(FrameKind::Newline, f, msg),
    ensures
        layouts::is_count(f[1], u16::MAX as nat),
{
    layouts::lemma_letters();
    layouts::lemma_frame(f, Header::Error);
    lemma_counts(f[1], u16::MAX as nat);
}

/// What is wrong with a quote before its pairs: the time.
pub proof fn law_refused_quote(f: Seq<Seq<u8>>, e: ParseError)
    requires
        f.len() >= 2,
        f[0] == seq![84u8],
        notices::are_fields(f, 1),
        layouts::refuses(FrameKind::Bang, f, e),
    ensures
        f.len() == 2 ==> lacks(f, e, "HHMMSS"),
        f.len() > 2 && !layouts::is_count(f[2], u32::MAX as nat)
            ==> e == (ParseError::BadInteger { field: "HHMMSS" }),
        f.len() == 4 && layouts::is_count(f[2], u32::MAX as nat)
            && layouts::is_count(f[3], u16::MAX as nat) ==> lacks(f, e, "quote value"),
        f.len() > 3 && layouts::is_count(f[2], u32::MAX as nat) && f[3].len() > 0
            && !layouts::is_count(f[3], u16::MAX as nat)
            ==> e == (ParseError::BadInteger { field: "quote index" }),
{
    layouts::lemma_letters();
    layouts::lemma_frame(f, Header::Quote);
    lemma_counts(f[2], u32::MAX as nat);
    lemma_counts(f[3], u16::MAX as nat);
    reveal_with_fuel(sqt::pairs_fault, 2);
}

/// A quote has a time.
pub proof fn law_parsed_quote(f: Seq<Seq<u8>>, msg: ProtocolMessage)
    requires
        f.len() >= 2,
        f[0] == seq![84u8],
        notices::are_fields(f, 1),
        layouts::reads(FrameKind::Bang, f, msg),
    ensures
        f.len() >= 3,
        layouts::is_count(f[2], u32::MAX as nat),
{
    layouts::lemma_letters();
    layouts::lemma_frame(f, Header::Quote);
    lemma_counts(f[2], u32::MAX as nat);
}

/// Each pair of a quote has an index, and a value that the index allows.
pub proof fn law_parsed_pair(
    f: Seq<Seq<u8>>,
    ticker: Bytes,
    time_hhmmss: u32,
    diff: QuoteDiff,
    i: int,
)
    requires
        f.len() >= 2,
        f[0] == seq![84u8],
        notices::are_fields(f, 1),
        layouts::reads(
            FrameKind::Bang,
            f,
            ProtocolMessage::Quote { ticker, time_hhmmss, diff },
        ),
        0 <= i < diff@.len(),
    ensures
        4 + 2 * i < f.len(),
        quotes::is_readable_pair(f, i),
{
    layouts::lemma_frame(f, Header::Quote);
    assert(diff@.len() == sqt::pair_count(f, 3));
    lemma_readable(f, 0, i as nat);
}

/// What is wrong with a quote's value, by the type of its index.
pub proof fn law_refused_quote_value(idx: u16, raw: Seq<u8>)
    requires
        layouts::is_field(raw),
    ensures
        sqt::wire_type(idx) == FieldType::Float ==> (sqt::value_fault(idx, raw) is None
            <==> layouts::is_amount(raw)) && (sqt::value_fault(idx, raw) matches Some(e)
            ==> is_no_amount(raw, e, "quote float")),
        sqt::wire_type(idx) == FieldType::Int ==> (sqt::value_fault(idx, raw) matches Some(e) ==> e
            == (ParseError::BadInteger { field: "quote int" })),
        sqt::wire_type(idx) == FieldType::Time ==> (sqt::value_fault(idx, raw) is None
            <==> layouts::is_count(raw, u32::MAX as nat)) && (sqt::value_fault(idx, raw) matches
            Some(e) ==> e == (ParseError::BadInteger { field: "quote time" })),
        sqt::wire_type(idx) == FieldType::TimeMs ==> (sqt::value_fault(idx, raw) is None
            <==> layouts::is_count(raw, u32::MAX as nat)) && (sqt::value_fault(idx, raw) matches
            Some(e) ==> e == (ParseError::BadInteger { field: "quote time-ms" })),
        sqt::wire_type(idx) == FieldType::Date ==> (sqt::value_fault(idx, raw) is None
            <==> layouts::is_count(raw, u32::MAX as nat)) && (sqt::value_fault(idx, raw) matches
            Some(e) ==> e == (ParseError::BadInteger { field: "quote date" })),
        sqt::wire_type(idx) == FieldType::DateTime ==> (sqt::value_fault(idx, raw) is None
            <==> layouts::is_count(raw, u64::MAX as nat)) && (sqt::value_fault(idx, raw) matches
            Some(e) ==> e == (ParseError::BadInteger { field: "quote datetime" })),
        sqt::wire_type(idx) == FieldType::Char ==> (sqt::value_fault(idx, raw) matches Some(e) ==> e
            == (ParseError::InvalidField {
            field: "quote char",
            reason: "expected exactly one byte",
        })),
{
    lemma_counts(raw, u32::MAX as nat);
    lemma_counts(raw, u64::MAX as nat);
    lemma_amounts(raw, "quote float");
}

} // verus!
