//! The layout of quote frames, and the types of quote values.
use crate::protocol::frame::FrameKind;
use crate::protocol::parser::layouts;
use crate::protocol::parser::sqt::FieldType;
use crate::protocol::parser::sqt;
use crate::protocol::parser::Header;
use crate::protocol::types::{ProtocolMessage, QuoteFieldValue};
use crate::text;
use crate::wire;
use vstd::prelude::*;

verus! {

/// Which indices are times of day, with and without milliseconds, dates, and
/// dates with times.
pub proof fn law_indices_of_times_and_dates(idx: u16)
    ensures
        sqt::wire_type(0) == FieldType::Time,
        sqt::wire_type(5) == FieldType::Time,
        sqt::wire_type(15) == FieldType::Time,
        sqt::wire_type(16) == FieldType::Time,
        sqt::wire_type(58) == FieldType::Time,
        sqt::wire_type(59) == FieldType::Time,
        sqt::wire_type(142) == FieldType::TimeMs,
        sqt::wire_type(143) == FieldType::TimeMs,
        sqt::wire_type(144) == FieldType::TimeMs,
        sqt::wire_type(145) == FieldType::TimeMs,
        sqt::wire_type(1) == FieldType::Date,
        sqt::wire_type(54) == FieldType::Date,
        sqt::wire_type(64) == FieldType::Date,
        sqt::wire_type(87) == FieldType::Date,
        sqt::wire_type(129) == FieldType::Date,
        sqt::wire_type(141) == FieldType::Date,
        sqt::wire_type(154) == FieldType::Date,
        sqt::wire_type(208) == FieldType::Date,
        sqt::wire_type(50) == FieldType::DateTime,
        sqt::wire_type(51) == FieldType::DateTime,
        sqt::wire_type(125) == FieldType::DateTime,
        sqt::wire_type(idx) == FieldType::Time ==> idx == 0 || idx == 5 || idx == 15 || idx == 16
            || idx == 58 || idx == 59,
        sqt::wire_type(idx) == FieldType::TimeMs ==> 142 <= idx <= 145,
        sqt::wire_type(idx) == FieldType::Date ==> idx == 1 || idx == 54 || idx == 64 || idx == 87
            || idx == 129 || idx == 141 || idx == 154 || idx == 208,
        sqt::wire_type(idx) == FieldType::DateTime ==> idx == 50 || idx == 51 || idx == 125,
{
}

/// Which indices are whole numbers.
pub proof fn law_indices_of_whole_numbers(idx: u16)
    ensures
        sqt::wire_type(6) == FieldType::Int,
        sqt::wire_type(7) == FieldType::Int,
        sqt::wire_type(8) == FieldType::Int,
        sqt::wire_type(9) == FieldType::Int,
        sqt::wire_type(19) == FieldType::Int,
        sqt::wire_type(20) == FieldType::Int,
        sqt::wire_type(44) == FieldType::Int,
        sqt::wire_type(45) == FieldType::Int,
        sqt::wire_type(46) == FieldType::Int,
        sqt::wire_type(49) == FieldType::Int,
        sqt::wire_type(57) == FieldType::Int,
        sqt::wire_type(60) == FieldType::Int,
        sqt::wire_type(61) == FieldType::Int,
        sqt::wire_type(62) == FieldType::Int,
        sqt::wire_type(63) == FieldType::Int,
        sqt::wire_type(65) == FieldType::Int,
        sqt::wire_type(67) == FieldType::Int,
        sqt::wire_type(84) == FieldType::Int,
        sqt::wire_type(100) == FieldType::Int,
        sqt::wire_type(101) == FieldType::Int,
        sqt::wire_type(102) == FieldType::Int,
        sqt::wire_type(110) == FieldType::Int,
        sqt::wire_type(111) == FieldType::Int,
        sqt::wire_type(113) == FieldType::Int,
        sqt::wire_type(114) == FieldType::Int,
        sqt::wire_type(115) == FieldType::Int,
        sqt::wire_type(118) == FieldType::Int,
        sqt::wire_type(119) == FieldType::Int,
        sqt::wire_type(130) == FieldType::Int,
        sqt::wire_type(136) == FieldType::Int,
        sqt::wire_type(137) == FieldType::Int,
        sqt::wire_type(138) == FieldType::Int,
        sqt::wire_type(203) == FieldType::Int,
        sqt::wire_type(205) == FieldType::Int,
        sqt::wire_type(209) == FieldType::Int,
        sqt::wire_type(213) == FieldType::Int,
        sqt::wire_type(idx) == FieldType::Int ==> 6 <= idx <= 9 || idx == 19 || idx == 20 || 44
            <= idx <= 46 || idx == 49 || idx == 57 || 60 <= idx <= 63 || idx == 65 || idx == 67
            || idx == 84 || 100 <= idx <= 102 || idx == 110 || idx == 111 || 113 <= idx <= 115
            || idx == 118 || idx == 119 || idx == 130 || 136 <= idx <= 138 || idx == 203 || idx
            == 205 || idx == 209 || idx == 213,
{
}

/// Which indices are text, single characters or the phase. All that is no text,
/// no whole number and no time is a number with a fraction.
pub proof fn law_indices_of_text(idx: u16)
    ensures
        sqt::wire_type(88) == FieldType::Phase,
        sqt::wire_type(56) == FieldType::Char,
        sqt::wire_type(72) == FieldType::Char,
        sqt::wire_type(74) == FieldType::Char,
        sqt::wire_type(106) == FieldType::Char,
        sqt::wire_type(47) == FieldType::Str,
        sqt::wire_type(48) == FieldType::Str,
        sqt::wire_type(52) == FieldType::Str,
        sqt::wire_type(53) == FieldType::Str,
        sqt::wire_type(66) == FieldType::Str,
        sqt::wire_type(81) == FieldType::Str,
        sqt::wire_type(96) == FieldType::Str,
        sqt::wire_type(105) == FieldType::Str,
        sqt::wire_type(109) == FieldType::Str,
        sqt::wire_type(116) == FieldType::Str,
        sqt::wire_type(117) == FieldType::Str,
        sqt::wire_type(122) == FieldType::Str,
        sqt::wire_type(126) == FieldType::Str,
        sqt::wire_type(139) == FieldType::Str,
        sqt::wire_type(204) == FieldType::Str,
        sqt::wire_type(206) == FieldType::Str,
        sqt::wire_type(207) == FieldType::Str,
        sqt::wire_type(214) == FieldType::Str,
        sqt::wire_type(215) == FieldType::Str,
        sqt::wire_type(idx) == FieldType::Phase ==> idx == 88,
        sqt::wire_type(idx) == FieldType::Char ==> idx == 56 || idx == 72 || idx == 74 || idx
            == 106,
        sqt::wire_type(idx) == FieldType::Str ==> idx == 47 || idx == 48 || idx == 52 || idx == 53
            || idx == 66 || idx == 81 || idx == 96 || idx == 105 || idx == 109 || idx == 116 || idx
            == 117 || idx == 122 || idx == 126 || idx == 139 || idx == 204 || idx == 206 || idx
            == 207 || idx == 214 || idx == 215,
{
}

/// The last price, the bid and ask, the day's prices and volumes, and every other
/// index that no list names, are numbers with a fraction.
pub proof fn law_other_indices_are_fractions(idx: u16)
    requires
        2 <= idx <= 4 || 10 <= idx <= 14 || idx == 17 || idx == 18 || 21 <= idx <= 43 || idx == 55
            || 68 <= idx <= 71 || idx == 73 || 75 <= idx <= 80 || idx == 82 || idx == 83 || idx
            == 85 || idx == 86 || 89 <= idx <= 95 || 97 <= idx <= 99 || idx == 103 || idx == 104
            || idx == 107 || idx == 108 || idx == 112 || idx == 120 || idx == 121 || idx == 123
            || idx == 124 || idx == 127 || idx == 128 || 131 <= idx <= 135 || idx == 140 || 146
            <= idx <= 153 || 155 <= idx <= 202 || 210 <= idx <= 212 || 216 <= idx,
    ensures
        sqt::wire_type(idx) == FieldType::Float,
{
}

/// Digits under the index of a whole number are read as that number, and digits
/// behind a minus as its negative.
pub proof fn law_whole_number_is_read(idx: u16, digits: Seq<u8>, v: QuoteFieldValue)
    requires
        6 <= idx <= 9 || idx == 19 || idx == 20 || 44 <= idx <= 46 || idx == 49 || idx == 57 || 60
            <= idx <= 63 || idx == 65 || idx == 67 || idx == 84 || 100 <= idx <= 102 || idx == 110
            || idx == 111 || 113 <= idx <= 115 || idx == 118 || idx == 119 || idx == 130 || 136
            <= idx <= 138 || idx == 203 || idx == 205 || idx == 209 || idx == 213,
        layouts::is_count(digits, i64::MAX as nat),
    ensures
        sqt::value_fault(idx, digits) is None,
        sqt::is_value(idx, digits, v) ==> (v matches QuoteFieldValue::Int(n) && n == text::number(
            digits,
        )),
        sqt::value_fault(idx, seq![45u8] + digits) is None,
        sqt::is_value(idx, seq![45u8] + digits, v) ==> (v matches QuoteFieldValue::Int(n) && n
            == -(text::number(digits) as int)),
{
    layouts::lemma_count(digits, i64::MAX as nat);
    assert(digits[0] != 45);
    assert((seq![45u8] + digits).drop_first() =~= digits);
}

/// Digits under the index of a time or a date are read as that number.
pub proof fn law_time_is_read(idx: u16, digits: Seq<u8>, v: QuoteFieldValue)
    requires
        layouts::is_count(digits, u32::MAX as nat),
    ensures
        idx == 0 || idx == 5 || idx == 15 || idx == 16 || idx == 58 || idx == 59 || 142 <= idx
            <= 145 ==> sqt::value_fault(idx, digits) is None && (sqt::is_value(idx, digits, v) ==> (
        v matches QuoteFieldValue::Time(n) && n == text::number(digits))),
        idx == 1 || idx == 54 || idx == 64 || idx == 87 || idx == 129 || idx == 141 || idx == 154
            || idx == 208 ==> sqt::value_fault(idx, digits) is None && (sqt::is_value(
            idx,
            digits,
            v,
        ) ==> (v matches QuoteFieldValue::Date(n) && n == text::number(digits))),
        idx == 50 || idx == 51 || idx == 125 ==> sqt::value_fault(idx, digits) is None && (
        sqt::is_value(idx, digits, v) ==> (v matches QuoteFieldValue::DateTime(n) && n
            == text::number(digits))),
{
    layouts::lemma_count(digits, u32::MAX as nat);
}

/// Fourteen digits and more are read under the index of a date with time.
pub proof fn law_date_with_time_is_read(idx: u16, digits: Seq<u8>, v: QuoteFieldValue)
    requires
        idx == 50 || idx == 51 || idx == 125,
        layouts::is_count(digits, u64::MAX as nat),
    ensures
        sqt::value_fault(idx, digits) is None,
        sqt::is_value(idx, digits, v) ==> (v matches QuoteFieldValue::DateTime(n) && n
            == text::number(digits)),
{
    layouts::lemma_count(digits, u64::MAX as nat);
}

/// Characters, phases and text are kept byte by byte; a phase of one byte is
/// filled up with a zero.
pub proof fn law_text_value_is_read(idx: u16, raw: Seq<u8>, v: QuoteFieldValue)
    ensures
        idx == 56 || idx == 72 || idx == 74 || idx == 106 ==> (sqt::value_fault(idx, raw) is None
            <==> raw.len() == 1) && (raw.len() == 1 && sqt::is_value(idx, raw, v) ==> (v matches
            QuoteFieldValue::Char(c) && raw == seq![c])),
        idx == 88 ==> sqt::value_fault(idx, raw) is None && (sqt::is_value(idx, raw, v) ==> (
        v matches QuoteFieldValue::Phase(p) && (raw.len() >= 1 ==> p@[0] == raw[0]) && (raw.len()
            >= 2 ==> p@[1] == raw[1]) && (raw.len() == 1 ==> p@[1] == 0) && (raw.len() == 0
            ==> p@[0] == 0 && p@[1] == 0))),
        idx == 47 || idx == 48 || idx == 52 || idx == 53 || idx == 66 || idx == 81 || idx == 96
            || idx == 105 || idx == 109 || idx == 116 || idx == 117 || idx == 122 || idx == 126
            || idx == 139 || idx == 204 || idx == 206 || idx == 207 || idx == 214 || idx == 215
            ==> sqt::value_fault(idx, raw) is None && (sqt::is_value(idx, raw, v) ==> (v matches
            QuoteFieldValue::Str(b) && wire::content(b) == raw)),
{
    if raw.len() == 1 {
        assert(raw =~= seq![raw[0]]);
    }
}

/// A number with a fraction keeps its text.
pub proof fn law_fraction_is_read(idx: u16, raw: Seq<u8>, v: QuoteFieldValue)
    requires
        2 <= idx <= 4 || 10 <= idx <= 14 || idx == 17 || idx == 18 || 21 <= idx <= 43 || idx == 55
            || 68 <= idx <= 71 || idx == 73 || 75 <= idx <= 80 || idx == 82 || idx == 83 || idx
            == 85 || idx == 86 || 89 <= idx <= 95 || 97 <= idx <= 99 || idx == 103 || idx == 104
            || idx == 107 || idx == 108 || idx == 112 || idx == 120 || idx == 121 || idx == 123
            || idx == 124 || idx == 127 || idx == 128 || 131 <= idx <= 135 || idx == 140 || 146
            <= idx <= 153 || 155 <= idx <= 202 || 210 <= idx <= 212 || 216 <= idx,
        layouts::is_amount(raw),
    ensures
        sqt::value_fault(idx, raw) is None,
        sqt::is_value(idx, raw, v) ==> (v matches QuoteFieldValue::Float(d) && d@ == raw),
{
}

/// Pair `i` of a quote frame has an index, and a value that its index allows.
pub open spec fn is_readable_pair(f: Seq<Seq<u8>>, i: int) -> bool {
    &&& layouts::is_count(f[3 + 2 * i], u16::MAX as nat)
    &&& sqt::value_fault(text::number(f[3 + 2 * i]) as u16, f[4 + 2 * i]) is None
}

/// The pairs from number `i` on are read one by one.
proof fn lemma_pairs(f: Seq<Seq<u8>>, i: nat, n: nat)
    requires
        i <= n,
        f.len() == 3 + 2 * n,
        forall|j: int| 0 <= j < n ==> #[trigger] is_readable_pair(f, j),
    ensures
        sqt::pairs_fault(f, 3 + 2 * i) is None,
        sqt::pair_count(f, 3 + 2 * i) == n - i,
    decreases n - i,
{
    let k: nat = 3 + 2 * i;
    if i < n {
        assert(is_readable_pair(f, i as int));
        layouts::lemma_count(f[k as int], u16::MAX as nat);
        lemma_pairs(f, i + 1, n);
        assert(k + 2 == 3 + 2 * (i + 1));
        assert(!sqt::ends_at(f, k));
    } else {
        assert(sqt::ends_at(f, k));
    }
}

/// A quote frame: behind the ticker and the time stand pairs of index and value,
/// each read in its place, as many as there are.
pub proof fn law_quote_is_read_in_order(f: Seq<Seq<u8>>, n: nat, msg: ProtocolMessage, i: int)
    requires
        f.len() == 3 + 2 * n,
        f[0] == seq![84u8],
        forall|j: int| 1 <= j < f.len() ==> layouts::is_field(#[trigger] f[j]),
        layouts::is_count(f[2], u32::MAX as nat),
        forall|j: int| 0 <= j < n ==> #[trigger] is_readable_pair(f, j),
        0 <= i < n,
    ensures
        layouts::is_accepted(FrameKind::Bang, f),
        layouts::reads(FrameKind::Bang, f, msg) ==> (msg matches ProtocolMessage::Quote {
            ticker,
            time_hhmmss,
            diff,
        } && wire::content(ticker) == f[1] && time_hhmmss == text::number(f[2]) && diff@.len() == n
            && diff@[i].0.0 == text::number(f[3 + 2 * i]) && sqt::is_value(
            diff@[i].0.0,
            f[4 + 2 * i],
            diff@[i].1,
        )),
{
    layouts::lemma_count(f[2], u32::MAX as nat);
    lemma_pairs(f, 0, n);
    layouts::lemma_frame(f, Header::Quote);
    assert(sqt::fault(f) is None);
    if layouts::reads(FrameKind::Bang, f, msg) {
        let diff = msg->diff;
        assert(sqt::is_message(f, msg));
        assert(sqt::is_pair(f, diff, i));
    }
}

/// A quote frame without pairs says its time and changes nothing.
pub proof fn law_quote_without_pairs(f: Seq<Seq<u8>>, msg: ProtocolMessage)
    requires
        f.len() == 3 || f.len() == 4 && f[3].len() == 0,
        f[0] == seq![84u8],
        layouts::is_field(f[1]),
        layouts::is_count(f[2], u32::MAX as nat),
    ensures
        layouts::is_accepted(FrameKind::Bang, f),
        layouts::reads(FrameKind::Bang, f, msg) ==> (msg matches ProtocolMessage::Quote {
            ticker,
            time_hhmmss,
            diff,
        } && wire::content(ticker) == f[1] && time_hhmmss == text::number(f[2]) && diff@.len()
            == 0),
{
    layouts::lemma_count(f[2], u32::MAX as nat);
    assert(f.len() == 4 ==> layouts::is_field(f[3]));
    layouts::lemma_frame(f, Header::Quote);
    assert(sqt::pair_count(f, 3) == 0);
}

/// A whole number in a quote frame: where the index of a pair is one of a whole
/// number and its value digits, the message holds that number under that index.
pub proof fn law_whole_number_in_a_quote(f: Seq<Seq<u8>>, n: nat, msg: ProtocolMessage, i: int)
    requires
        f.len() == 3 + 2 * n,
        f[0] == seq![84u8],
        forall|j: int| 1 <= j < f.len() ==> layouts::is_field(#[trigger] f[j]),
        layouts::is_count(f[2], u32::MAX as nat),
        forall|j: int| 0 <= j < n ==> #[trigger] is_readable_pair(f, j),
        0 <= i < n,
        layouts::is_count(f[4 + 2 * i], i64::MAX as nat),
        ({
            let idx = text::number(f[3 + 2 * i]);
            6 <= idx <= 9 || idx == 19 || idx == 20 || 44 <= idx <= 46 || idx == 49 || idx == 57
                || 60 <= idx <= 63 || idx == 65 || idx == 67 || idx == 84 || 100 <= idx <= 102
                || idx == 110 || idx == 111 || 113 <= idx <= 115 || idx == 118 || idx == 119 || idx
                == 130 || 136 <= idx <= 138 || idx == 203 || idx == 205 || idx == 209 || idx == 213
        }),
        layouts::reads(FrameKind::Bang, f, msg),
    ensures
        msg matches ProtocolMessage::Quote { ticker, time_hhmmss, diff } && diff@[i].0.0
            == text::number(f[3 + 2 * i]) && (diff@[i].1 matches QuoteFieldValue::Int(v) && v
            == text::number(f[4 + 2 * i])),
{
    law_quote_is_read_in_order(f, n, msg, i);
    let diff = msg->diff;
    law_whole_number_is_read(diff@[i].0.0, f[4 + 2 * i], diff@[i].1);
}

/// The type that an index is said to have is the one that its values are read by.
pub proof fn law_types_are_told(idx: u16, r: FieldType)
    requires
        call_ensures(sqt::field_type, (idx,), r),
    ensures
        r == sqt::wire_type(idx),
        6 <= idx <= 9 || idx == 19 || idx == 20 || 44 <= idx <= 46 || idx == 49 || idx == 57 || 60
            <= idx <= 63 || idx == 65 || idx == 67 || idx == 84 || 100 <= idx <= 102 || idx == 110
            || idx == 111 || 113 <= idx <= 115 || idx == 118 || idx == 119 || idx == 130 || 136
            <= idx <= 138 || idx == 203 || idx == 205 || idx == 209 || idx == 213 <==> r
            == FieldType::Int,
{
}

} // verus!
