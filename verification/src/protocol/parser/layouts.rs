//! The layouts of frames: what each field means, message by message.
//!
//! Each law writes a frame out of its fields, in the order of the protocol, and
//! says what the message holds that is read from it.
use crate::decimal;
use crate::protocol::enums;
use crate::protocol::enums::Side;
use crate::protocol::frame::FrameKind;
use crate::protocol::parser;
use crate::protocol::parser::{bqt, gqt, sab, scanner, vap};
use crate::protocol::parser::{Header, ParseError};
use crate::protocol::types::{AggBookOp, BookDelete, BookOp, ProtocolMessage, TradeOperation};
use crate::text;
use crate::wire;
use bytes::Bytes;
use vstd::prelude::*;
use vstd::utf8;

verus! {

/// Bytes that may stand in a field: none is a colon.
pub open spec fn is_field(s: Seq<u8>) -> bool {
    !s.contains(58)
}

/// Digits that spell a number up to `max`.
pub open spec fn is_count(s: Seq<u8>, max: nat) -> bool {
    &&& s.len() > 0
    &&& forall|i: int| 0 <= i < s.len() ==> 48 <= #[trigger] s[i] <= 57
    &&& text::number(s) <= max
}

/// A number that may stand in a field.
pub open spec fn is_amount(s: Seq<u8>) -> bool {
    is_field(s) && s.len() > 0 && utf8::valid_utf8(s) && decimal::is_float(s)
}

/// A frame of these fields may be parsed as `msg`.
#[verifier::opaque]
pub open spec fn reads(kind: FrameKind, f: Seq<Seq<u8>>, msg: ProtocolMessage) -> bool {
    exists|frame: Bytes|
        wire::content(frame) == scanner::join(f) && #[trigger] call_ensures(
            parser::parse_frame,
            (kind, frame),
            Ok(msg),
        )
}

/// A frame of these fields may be refused with `e`.
#[verifier::opaque]
pub open spec fn refuses(kind: FrameKind, f: Seq<Seq<u8>>, e: ParseError) -> bool {
    exists|frame: Bytes|
        wire::content(frame) == scanner::join(f) && #[trigger] call_ensures(
            parser::parse_frame,
            (kind, frame),
            Err(e),
        )
}

/// A frame of these fields is parsed without complaint.
pub open spec fn is_accepted(kind: FrameKind, f: Seq<Seq<u8>>) -> bool {
    forall|e: ParseError| !#[trigger] refuses(kind, f, e)
}

/// A frame of these fields is never parsed.
pub open spec fn is_rejected(kind: FrameKind, f: Seq<Seq<u8>>) -> bool {
    forall|msg: ProtocolMessage| !#[trigger] reads(kind, f, msg)
}

pub(crate) proof fn lemma_count(s: Seq<u8>, max: nat)
    requires
        is_count(s, max),
    ensures
        is_field(s),
        scanner::is_unsigned(s, max),
{
    if s.contains(58) {
        let i = choose|i: int| 0 <= i < s.len() && s[i] == 58;
        assert(s[i] == 58);
    }
}

pub(crate) proof fn lemma_one_letter(c: u8)
    requires
        c != 58,
    ensures
        is_field(seq![c]),
        seq![c].len() == 1,
        seq![c][0] == c,
{
}

/// The letters that frames hold are single bytes.
pub(crate) proof fn lemma_letters()
    ensures
        text::bytes_of("A") == seq![65u8],
        text::bytes_of("D") == seq![68u8],
        text::bytes_of("E") == seq![69u8],
        text::bytes_of("L") == seq![76u8],
        text::bytes_of("N") == seq![78u8],
        text::bytes_of("R") == seq![82u8],
        text::bytes_of("U") == seq![85u8],
        text::bytes_of("0") == seq![48u8],
        text::bytes_of("1") == seq![49u8],
        text::bytes_of("2") == seq![50u8],
        text::bytes_of("3") == seq![51u8],
{
    reveal_strlit("A");
    reveal_strlit("D");
    reveal_strlit("E");
    reveal_strlit("L");
    reveal_strlit("N");
    reveal_strlit("R");
    reveal_strlit("U");
    reveal_strlit("0");
    reveal_strlit("1");
    reveal_strlit("2");
    reveal_strlit("3");
    text::lemma_one_byte("A", 'A');
    text::lemma_one_byte("D", 'D');
    text::lemma_one_byte("E", 'E');
    text::lemma_one_byte("L", 'L');
    text::lemma_one_byte("N", 'N');
    text::lemma_one_byte("R", 'R');
    text::lemma_one_byte("U", 'U');
    text::lemma_one_byte("0", '0');
    text::lemma_one_byte("1", '1');
    text::lemma_one_byte("2", '2');
    text::lemma_one_byte("3", '3');
}

/// Different letters are different fields.
pub(crate) proof fn lemma_letters_differ(a: u8, b: u8)
    ensures
        seq![a] == seq![b] <==> a == b,
{
    assert(seq![a][0] == a);
    assert(seq![b][0] == b);
}

/// The bytes that a frame under a header begins with, up to its first colon.
pub open spec fn word_of(h: Header) -> Seq<u8> {
    match h {
        Header::Quote => seq![84u8],
        Header::Book => seq![66u8],
        Header::AggBook => seq![90u8],
        Header::Trade => seq![86u8],
        Header::News => seq![79u8],
        Header::Vap => seq![86u8, 65, 80],
        Header::ServerTime => seq![71u8, 84, 67],
        Header::Catalog => seq![67u8],
        Header::Broker => seq![71u8],
        Header::Error => seq![69u8],
    }
}

proof fn lemma_header_words()
    ensures
        text::bytes_of("T:") == seq![84u8, 58],
        text::bytes_of("B:") == seq![66u8, 58],
        text::bytes_of("Z:") == seq![90u8, 58],
        text::bytes_of("V:") == seq![86u8, 58],
        text::bytes_of("O:") == seq![79u8, 58],
        text::bytes_of("VAP:") == seq![86u8, 65, 80, 58],
        text::bytes_of("GTC:") == seq![71u8, 84, 67, 58],
        text::bytes_of("C:") == seq![67u8, 58],
        text::bytes_of("G:") == seq![71u8, 58],
        text::bytes_of("E:") == seq![69u8, 58],
{
    reveal_strlit("T:");
    reveal_strlit("B:");
    reveal_strlit("Z:");
    reveal_strlit("V:");
    reveal_strlit("O:");
    reveal_strlit("VAP:");
    reveal_strlit("GTC:");
    reveal_strlit("C:");
    reveal_strlit("G:");
    reveal_strlit("E:");
    text::lemma_ascii_bytes("T:");
    text::lemma_ascii_bytes("B:");
    text::lemma_ascii_bytes("Z:");
    text::lemma_ascii_bytes("V:");
    text::lemma_ascii_bytes("O:");
    text::lemma_ascii_bytes("VAP:");
    text::lemma_ascii_bytes("GTC:");
    text::lemma_ascii_bytes("C:");
    text::lemma_ascii_bytes("G:");
    text::lemma_ascii_bytes("E:");
    assert(text::bytes_of("T:") =~= seq![84u8, 58]);
    assert(text::bytes_of("B:") =~= seq![66u8, 58]);
    assert(text::bytes_of("Z:") =~= seq![90u8, 58]);
    assert(text::bytes_of("V:") =~= seq![86u8, 58]);
    assert(text::bytes_of("O:") =~= seq![79u8, 58]);
    assert(text::bytes_of("VAP:") =~= seq![86u8, 65, 80, 58]);
    assert(text::bytes_of("GTC:") =~= seq![71u8, 84, 67, 58]);
    assert(text::bytes_of("C:") =~= seq![67u8, 58]);
    assert(text::bytes_of("G:") =~= seq![71u8, 58]);
    assert(text::bytes_of("E:") =~= seq![69u8, 58]);
}

pub(crate) proof fn lemma_begins(s: Seq<u8>, head: Seq<u8>)
    ensures
        text::begins_with(s, head) <==> (head.len() <= s.len() && forall|i: int|
            0 <= i < head.len() ==> s[i] == #[trigger] head[i]),
{
    if head.len() <= s.len() {
        let t = s.take(head.len() as int);
        if forall|i: int| 0 <= i < head.len() ==> s[i] == #[trigger] head[i] {
            assert(t =~= head);
        }
        if text::begins_with(s, head) {
            assert forall|i: int| 0 <= i < head.len() implies s[i] == #[trigger] head[i] by {
                assert(t[i] == s[i]);
            }
        }
    }
}

/// The header decides which message a frame is read as: it is the frame's first
/// field.
pub proof fn law_first_field_is_the_header(h: Header, rest: Seq<u8>)
    ensures
        parser::header_of(word_of(h) + seq![58u8] + rest) == Some(h),
{
    let s = word_of(h) + seq![58u8] + rest;
    lemma_header_words();
    lemma_begins(s, text::bytes_of("T:"));
    lemma_begins(s, text::bytes_of("B:"));
    lemma_begins(s, text::bytes_of("Z:"));
    lemma_begins(s, text::bytes_of("V:"));
    lemma_begins(s, text::bytes_of("O:"));
    lemma_begins(s, text::bytes_of("VAP:"));
    lemma_begins(s, text::bytes_of("GTC:"));
    lemma_begins(s, text::bytes_of("C:"));
    lemma_begins(s, text::bytes_of("G:"));
    lemma_begins(s, text::bytes_of("E:"));
    let n = word_of(h).len() as int;
    assert(s[n] == 58);
    assert(s[0] == word_of(h)[0]);
    assert(n > 1 ==> s[1] == word_of(h)[1] && s[2] == word_of(h)[2]);
    assert(text::bytes_of("T:")[0] == 84 && text::bytes_of("T:")[1] == 58);
    assert(text::bytes_of("B:")[0] == 66 && text::bytes_of("B:")[1] == 58);
    assert(text::bytes_of("Z:")[0] == 90 && text::bytes_of("Z:")[1] == 58);
    assert(text::bytes_of("V:")[0] == 86 && text::bytes_of("V:")[1] == 58);
    assert(text::bytes_of("O:")[0] == 79 && text::bytes_of("O:")[1] == 58);
    assert(text::bytes_of("VAP:")[1] == 65);
    assert(text::bytes_of("GTC:")[1] == 84);
    assert(text::bytes_of("C:")[0] == 67 && text::bytes_of("C:")[1] == 58);
    assert(text::bytes_of("G:")[0] == 71 && text::bytes_of("G:")[1] == 58);
    assert(text::bytes_of("E:")[0] == 69 && text::bytes_of("E:")[1] == 58);
}

/// What a header makes of a frame.
proof fn lemma_dispatch(s: Seq<u8>, f: Seq<Seq<u8>>, h: Header)
    requires
        s == scanner::join(f),
        s.len() > 0,
        scanner::fields(s) == f,
        parser::header_of(s) == Some(h),
    ensures
        parser::fault(h, f) is None ==> is_accepted(parser::kind_under(h), f),
        forall|msg: ProtocolMessage| #[trigger]
            reads(parser::kind_under(h), f, msg) ==> parser::is_message(h, f, msg) && parser::fault(
                h,
                f,
            ) is None,
        forall|e: ParseError| #[trigger]
            refuses(parser::kind_under(h), f, e) ==> parser::fault(h, f) == Some(e),
{
    reveal(reads);
    reveal(refuses);
}

/// A frame of these fields is read by the parser of its header.
pub(crate) proof fn lemma_frame(f: Seq<Seq<u8>>, h: Header)
    requires
        f.len() > 1,
        f[0] == word_of(h),
        forall|i: int| 1 <= i < f.len() ==> is_field(#[trigger] f[i]),
    ensures
        parser::fault(h, f) is None ==> is_accepted(parser::kind_under(h), f),
        forall|msg: ProtocolMessage| #[trigger]
            reads(parser::kind_under(h), f, msg) ==> parser::is_message(h, f, msg) && parser::fault(
                h,
                f,
            ) is None,
        forall|e: ParseError| #[trigger]
            refuses(parser::kind_under(h), f, e) ==> parser::fault(h, f) == Some(e),
{
    assert forall|i: int| 0 <= i < f.len() implies !(#[trigger] f[i]).contains(58) by {
        if i > 0 {
            assert(is_field(f[i]));
        } else if f[0].contains(58) {
            let k = choose|k: int| 0 <= k < f[0].len() && f[0][k] == 58;
            assert(f[0][k] == 58);
        }
    }
    scanner::law_written_fields_are_read(f);
    let rest = f.drop_first();
    assert(scanner::join(f) == f[0] + seq![58u8] + scanner::join(rest));
    law_first_field_is_the_header(h, scanner::join(rest));
    lemma_dispatch(scanner::join(f), f, h);
}

proof fn lemma_one_byte_field(s: Seq<u8>)
    requires
        s.len() == 1,
        s[0] != 58,
    ensures
        is_field(s),
{
}

/// The first five numbers of a trade are read.
proof fn lemma_trade(f: Seq<Seq<u8>>, t: Seq<Seq<u8>>)
    requires
        f.len() >= 12,
        t == f.skip(3),
        is_count(f[3], u32::MAX as nat),
        is_amount(f[4]),
        is_count(f[5], u32::MAX as nat),
        is_count(f[6], u32::MAX as nat),
        is_count(f[7], u64::MAX as nat),
    ensures
        t[0] == f[3] && t[1] == f[4] && t[2] == f[5] && t[3] == f[6] && t[4] == f[7],
        is_field(f[3]) && is_field(f[4]) && is_field(f[5]) && is_field(f[6]) && is_field(f[7]),
        scanner::bad_unsigned(t[0], u32::MAX as nat, "trade time") is None,
        scanner::bad_decimal(t[1], "trade price") is None,
        scanner::bad_unsigned(t[2], u32::MAX as nat, "trade broker buy") is None,
        scanner::bad_unsigned(t[3], u32::MAX as nat, "trade broker sell") is None,
        scanner::bad_unsigned(t[4], u64::MAX as nat, "trade quantity") is None,
{
    lemma_count(f[3], u32::MAX as nat);
    lemma_count(f[5], u32::MAX as nat);
    lemma_count(f[6], u32::MAX as nat);
    lemma_count(f[7], u64::MAX as nat);
}

proof fn lemma_trade_frame(f: Seq<Seq<u8>>)
    requires
        f.len() >= 12,
        f[0] == seq![86u8],
        f[2] == seq![65u8],
        forall|i: int| 3 <= i < f.len() ==> is_field(#[trigger] f[i]),
        is_field(f[1]),
        gqt::add_fault(f.skip(3)) is None,
    ensures
        f[2] == text::bytes_of("A"),
        is_accepted(FrameKind::Newline, f),
        forall|msg: ProtocolMessage| #[trigger]
            reads(FrameKind::Newline, f, msg) ==> gqt::is_message(f, msg),
{
    lemma_letters();
    lemma_one_letter(65);
    lemma_frame(f, Header::Trade);
}

/// A trade on a subscription: behind `A` stand time, price, buyer, seller,
/// quantity, trade id, condition, aggressor and original conditions, in this
/// order. A dangling colon behind them changes nothing.
#[verifier::spinoff_prover]
pub proof fn law_subscribed_trade_is_read_in_order(f: Seq<Seq<u8>>, msg: ProtocolMessage)
    requires
        f.len() == 12 || f.len() == 13 && f[12].len() == 0,
        f[0] == seq![86u8],
        f[2] == seq![65u8],
        is_field(f[1]) && is_field(f[8]) && is_field(f[11]),
        is_count(f[3], u32::MAX as nat),
        is_amount(f[4]),
        is_count(f[5], u32::MAX as nat),
        is_count(f[6], u32::MAX as nat),
        is_count(f[7], u64::MAX as nat),
        is_count(f[9], u16::MAX as nat),
        f[10].len() == 1 && f[10][0] != 58,
    ensures
        is_accepted(FrameKind::Newline, f),
        reads(FrameKind::Newline, f, msg) ==> (msg matches
            ProtocolMessage::Trade { ticker, op: TradeOperation::Add(trade) } && wire::content(
            ticker,
        ) == f[1] && trade.operation_code == 65 && trade.time_hhmmss == text::number(f[3])
            && trade.price@ == f[4] && trade.broker_buy_id == text::number(f[5])
            && trade.broker_sell_id == text::number(f[6]) && trade.quantity == text::number(f[7])
            && wire::content(trade.trade_id) == f[8] && trade.request_id is None
            && trade.condition == enums::condition_of(text::number(f[9]) as u16)
            && trade.aggressor == enums::aggressor_of(f[10][0]) && wire::content(
            trade.original_conditions,
        ) == f[11]),
{
    let t = f.skip(3);
    assert(gqt::width(t) == 9);
    lemma_one_byte_field(f[10]);
    assert(f.len() == 13 ==> is_field(f[12]));
    lemma_trade(f, t);
    assert(t[5] == f[8] && t[6] == f[9] && t[7] == f[10] && t[8] == f[11]);
    lemma_count(f[9], u16::MAX as nat);
    assert(gqt::add_fault(t) is None);
    lemma_trade_frame(f);
}

/// A trade on a snapshot: as on a subscription, with the request id between
/// trade id and condition. A dangling colon behind it changes nothing; without
/// one the original conditions are not empty.
#[verifier::spinoff_prover]
pub proof fn law_snapshot_trade_is_read_in_order(f: Seq<Seq<u8>>, msg: ProtocolMessage)
    requires
        f.len() == 13 && f[12].len() > 0 || f.len() == 14 && f[13].len() == 0,
        f[0] == seq![86u8],
        f[2] == seq![65u8],
        is_field(f[1]) && is_field(f[8]) && is_field(f[9]) && is_field(f[12]),
        is_count(f[3], u32::MAX as nat),
        is_amount(f[4]),
        is_count(f[5], u32::MAX as nat),
        is_count(f[6], u32::MAX as nat),
        is_count(f[7], u64::MAX as nat),
        is_count(f[10], u16::MAX as nat),
        f[11].len() == 1 && f[11][0] != 58,
    ensures
        is_accepted(FrameKind::Newline, f),
        reads(FrameKind::Newline, f, msg) ==> (msg matches
            ProtocolMessage::Trade { ticker, op: TradeOperation::Add(trade) } && wire::content(
            ticker,
        ) == f[1] && trade.operation_code == 65 && trade.time_hhmmss == text::number(f[3])
            && trade.price@ == f[4] && trade.broker_buy_id == text::number(f[5])
            && trade.broker_sell_id == text::number(f[6]) && trade.quantity == text::number(f[7])
            && wire::content(trade.trade_id) == f[8] && (trade.request_id matches Some(id)
            && wire::content(id) == f[9]) && trade.condition == enums::condition_of(
            text::number(f[10]) as u16,
        ) && trade.aggressor == enums::aggressor_of(f[11][0]) && wire::content(
            trade.original_conditions,
        ) == f[12]),
{
    let t = f.skip(3);
    assert(gqt::width(t) == 10);
    lemma_one_byte_field(f[11]);
    assert(f.len() == 14 ==> is_field(f[13]));
    lemma_trade(f, t);
    assert(t[5] == f[8] && t[6] == f[9] && t[7] == f[10] && t[8] == f[11] && t[9] == f[12]);
    lemma_count(f[10], u16::MAX as nat);
    assert(gqt::add_fault(t) is None);
    lemma_trade_frame(f);
}

/// A snapshot line, and the subscription line that it becomes when the seventh
/// field behind `A` is left out, give the same trade but for the request id,
/// which is that field.
pub proof fn law_request_id_is_the_seventh_field(
    f: Seq<Seq<u8>>,
    snapshot: ProtocolMessage,
    subscribed: ProtocolMessage,
)
    requires
        f.len() == 13,
        f[0] == seq![86u8],
        f[2] == seq![65u8],
        f[12].len() > 0,
        forall|i: int| 0 <= i < f.len() ==> is_field(#[trigger] f[i]),
        reads(FrameKind::Newline, f, snapshot),
        reads(FrameKind::Newline, f.remove(9), subscribed),
    ensures
        snapshot matches ProtocolMessage::Trade { ticker: s, op: TradeOperation::Add(a) }
            && subscribed matches ProtocolMessage::Trade { ticker: t, op: TradeOperation::Add(b) }
            && wire::content(s) == wire::content(t) && a.operation_code == b.operation_code
            && a.time_hhmmss == b.time_hhmmss && a.price@ == b.price@ && a.broker_buy_id
            == b.broker_buy_id && a.broker_sell_id == b.broker_sell_id && a.quantity == b.quantity
            && wire::content(a.trade_id) == wire::content(b.trade_id) && wire::content(a.trade_id)
            == f[8] && (a.request_id matches Some(r) && wire::content(r) == f[9]) && b.request_id
            is None && a.condition == b.condition && a.aggressor == b.aggressor && wire::content(
            a.original_conditions,
        ) == wire::content(b.original_conditions),
{
    lemma_letters();
    let g = f.remove(9);
    assert forall|i: int| 1 <= i < g.len() implies is_field(#[trigger] g[i]) by {
        assert(g[i] == if i < 9 { f[i] } else { f[i + 1] });
    }
    lemma_frame(f, Header::Trade);
    lemma_frame(g, Header::Trade);
    let t = f.skip(3);
    let u = g.skip(3);
    assert(t.len() == 10 && u.len() == 9);
    assert(t[6] == f[9] && t[5] == f[8]);
    assert forall|i: int| 0 <= i < 9 implies #[trigger] u[i] == if i < 6 { t[i] } else { t[i + 1] } by {
    }
    assert(g[1] == f[1]);
    assert(u[0] == t[0] && u[1] == t[1] && u[2] == t[2] && u[3] == t[3] && u[4] == t[4]);
    assert(u[5] == t[5] && u[6] == t[7] && u[7] == t[8] && u[8] == t[9]);
}

/// The other trade frames: `D` takes a trade back, `R` removes all, and `E` ends
/// the snapshot of a subscription or, with a request id, a one-shot one.
pub proof fn law_other_trade_frames(f: Seq<Seq<u8>>, msg: ProtocolMessage)
    requires
        f.len() == 3 && (f[2] == seq![82u8] || f[2] == seq![69u8]) || f.len() == 4 && (f[2]
            == seq![68u8] || f[2] == seq![69u8]) && is_field(f[3]),
        f[0] == seq![86u8],
        is_field(f[1]),
    ensures
        is_accepted(FrameKind::Newline, f),
        reads(FrameKind::Newline, f, msg) ==> (msg matches ProtocolMessage::Trade { ticker, op }
            && wire::content(ticker) == f[1] && (f[2] == seq![68u8] ==> (op matches
            TradeOperation::Delete { trade_id } && wire::content(trade_id) == f[3])) && (f[2]
            == seq![82u8] ==> op is RemoveAll) && (f[2] == seq![69u8] && (f.len() == 3
            || f[3].len() == 0) ==> op is EndOfSubscribe) && (f[2] == seq![69u8] && f.len() == 4
            && f[3].len() > 0 ==> (op matches TradeOperation::EndOfSnapshot { request_id }
            && wire::content(request_id) == f[3]))),
{
    lemma_letters();
    lemma_one_letter(68);
    lemma_one_letter(82);
    lemma_one_letter(69);
    lemma_letters_differ(68, 65);
    lemma_letters_differ(82, 65);
    lemma_letters_differ(82, 68);
    lemma_letters_differ(69, 65);
    lemma_letters_differ(69, 68);
    lemma_letters_differ(69, 82);
    lemma_frame(f, Header::Trade);
}

/// The numbers of a data line of volume at price may all be read.
pub open spec fn is_volume_line(f: Seq<Seq<u8>>) -> bool {
    &&& f.len() == 16
    &&& f[0] == seq![86u8, 65, 80]
    &&& is_field(f[1])
    &&& f[2] != seq![69u8]
    &&& forall|i: int| 2 <= i < 16 && i != 11 ==> is_amount(#[trigger] f[i])
    &&& f[11].len() == 0 || is_count(f[11], u32::MAX as nat)
}

/// A data line of volume at price: behind the ticker stand the price, trades and
/// volume of buyer, seller, direct and undefined, the period, and trades and
/// volume of RLP and auction, in this order.
pub proof fn law_volume_line_is_read_in_order(f: Seq<Seq<u8>>, msg: ProtocolMessage)
    requires
        is_volume_line(f),
    ensures
        is_accepted(FrameKind::Newline, f),
        reads(FrameKind::Newline, f, msg) ==> (msg matches
            ProtocolMessage::Vap(e) && wire::content(e.ticker) == f[1] && e.price@ == f[2]
            && e.buyer_trades@ == f[3] && e.buyer_volume@ == f[4] && e.seller_trades@ == f[5]
            && e.seller_volume@ == f[6] && e.direct_trades@ == f[7] && e.direct_volume@ == f[8]
            && e.undefined_trades@ == f[9] && e.undefined_volume@ == f[10] && (e.period_minutes
            is None <==> f[11].len() == 0 || f[11] == seq![48u8]) && (e.period_minutes matches
            Some(p) ==> p == text::number(f[11])) && e.rlp_trades@ == f[12] && e.rlp_volume@
            == f[13] && e.auction_trades@ == f[14] && e.auction_volume@ == f[15]),
{
    lemma_letters();
    if f[11].len() > 0 {
        lemma_count(f[11], u32::MAX as nat);
    } else {
        assert(!f[11].contains(58));
    }
    assert forall|i: int| 1 <= i < f.len() implies is_field(#[trigger] f[i]) by {
        if i != 1 && i != 11 {
            assert(is_amount(f[i]));
        }
    }
    lemma_frame(f, Header::Vap);
    assert(is_amount(f[2]) && is_amount(f[3]) && is_amount(f[4]) && is_amount(f[5]));
    assert(is_amount(f[6]) && is_amount(f[7]) && is_amount(f[8]) && is_amount(f[9]));
    assert(is_amount(f[10]) && is_amount(f[12]) && is_amount(f[13]) && is_amount(f[14]));
    assert(is_amount(f[15]));
    assert(vap::flow_fault(f) is None);
    assert(vap::special_fault(f) is None);
    assert(vap::fault(f) is None);
}

/// Writing the ticker and the numbers of a data line back in the order of the
/// protocol, with colons between, gives the frame back.
pub proof fn law_volume_line_is_written_back(f: Seq<Seq<u8>>, msg: ProtocolMessage)
    requires
        is_volume_line(f),
        reads(FrameKind::Newline, f, msg),
    ensures
        msg matches ProtocolMessage::Vap(e) && scanner::join(
            seq![
                seq![86u8, 65, 80],
                wire::content(e.ticker),
                e.price@,
                e.buyer_trades@,
                e.buyer_volume@,
                e.seller_trades@,
                e.seller_volume@,
                e.direct_trades@,
                e.direct_volume@,
                e.undefined_trades@,
                e.undefined_volume@,
                f[11],
                e.rlp_trades@,
                e.rlp_volume@,
                e.auction_trades@,
                e.auction_volume@,
            ],
        ) == scanner::join(f),
{
    law_volume_line_is_read_in_order(f, msg);
    let e = msg->Vap_0;
    assert(seq![
        seq![86u8, 65, 80],
        wire::content(e.ticker),
        e.price@,
        e.buyer_trades@,
        e.buyer_volume@,
        e.seller_trades@,
        e.seller_volume@,
        e.direct_trades@,
        e.direct_volume@,
        e.undefined_trades@,
        e.undefined_volume@,
        f[11],
        e.rlp_trades@,
        e.rlp_volume@,
        e.auction_trades@,
        e.auction_volume@,
    ] =~= f);
}

/// The end of volume at price: an entry whose numbers are all `0`, with the
/// period that the frame gives.
pub proof fn law_volume_end_is_read(f: Seq<Seq<u8>>, msg: ProtocolMessage)
    requires
        f.len() == 3 || f.len() == 4 && (f[3].len() == 0 || is_count(f[3], u32::MAX as nat)),
        f[0] == seq![86u8, 65, 80],
        f[2] == seq![69u8],
        is_field(f[1]),
    ensures
        is_accepted(FrameKind::Newline, f),
        reads(FrameKind::Newline, f, msg) ==> (msg matches
            ProtocolMessage::Vap(e) && wire::content(e.ticker) == f[1] && e.price@ == seq![48u8]
            && e.buyer_trades@ == seq![48u8] && e.buyer_volume@ == seq![48u8] && e.seller_trades@
            == seq![48u8] && e.seller_volume@ == seq![48u8] && e.direct_trades@ == seq![48u8]
            && e.direct_volume@ == seq![48u8] && e.undefined_trades@ == seq![48u8]
            && e.undefined_volume@ == seq![48u8] && e.rlp_trades@ == seq![48u8] && e.rlp_volume@
            == seq![48u8] && e.auction_trades@ == seq![48u8] && e.auction_volume@ == seq![48u8]
            && (e.period_minutes is Some <==> f.len() == 4 && f[3].len() > 0) && (
        e.period_minutes matches Some(p) ==> p == text::number(f[3]))),
{
    lemma_letters();
    lemma_one_letter(69);
    if f.len() == 4 {
        if f[3].len() > 0 {
            lemma_count(f[3], u32::MAX as nat);
        }
        assert(is_field(f[3]));
    }
    lemma_frame(f, Header::Vap);
}

/// `b` is the letter of a side: `A` buys and `V` sells.
pub open spec fn stands_for(b: Seq<u8>, side: Side) -> bool {
    match side {
        Side::Buy => b == seq![65u8],
        Side::Sell => b == seq![86u8],
    }
}

proof fn lemma_side(b: Seq<u8>)
    requires
        b == seq![65u8] || b == seq![86u8],
    ensures
        is_field(b),
        b.len() == 1,
        enums::side_of(b[0]) is Some,
        forall|side: Side| Some(side) == enums::side_of(b[0]) ==> stands_for(b, side),
{
    lemma_one_letter(65);
    lemma_one_letter(86);
}

/// An entry added to the detailed book: position, side, price, quantity, broker
/// and date stand behind `A` in this order, and behind them, if at all, order id
/// and offer type.
pub proof fn law_book_add_is_read_in_order(f: Seq<Seq<u8>>, msg: ProtocolMessage)
    requires
        f.len() == 9 || f.len() == 11 && is_field(f[9]) && f[10].len() == 1 && is_field(f[10]),
        f[0] == seq![66u8],
        f[2] == seq![65u8],
        is_field(f[1]),
        is_count(f[3], u32::MAX as nat),
        f[4] == seq![65u8] || f[4] == seq![86u8],
        is_amount(f[5]),
        is_count(f[6], u64::MAX as nat),
        is_count(f[7], u32::MAX as nat),
        is_count(f[8], u32::MAX as nat),
    ensures
        is_accepted(FrameKind::Newline, f),
        reads(FrameKind::Newline, f, msg) ==> (msg matches
            ProtocolMessage::Book { ticker, op: BookOp::Add(e) } && wire::content(ticker) == f[1]
            && e.position == text::number(f[3]) && stands_for(f[4], e.side) && e.price@ == f[5]
            && e.quantity == text::number(f[6]) && e.broker_id == text::number(f[7])
            && e.timestamp_ddmmhhmm == text::number(f[8]) && (e.order_id is Some <==> f.len()
            == 11) && (e.order_id matches Some(id) ==> wire::content(id) == f[9]) && (e.offer_type
            is Some <==> f.len() == 11) && (e.offer_type matches Some(b) ==> f[10] == seq![b])),
{
    lemma_letters();
    lemma_one_letter(65);
    lemma_count(f[3], u32::MAX as nat);
    lemma_side(f[4]);
    lemma_count(f[6], u64::MAX as nat);
    lemma_count(f[7], u32::MAX as nat);
    lemma_count(f[8], u32::MAX as nat);
    lemma_frame(f, Header::Book);
    assert(f.len() == 11 ==> f[10] =~= seq![f[10][0]]);
    assert(bqt::fault(f) is None);
}

/// An entry of the detailed book that moves: the new position stands before the
/// old one, and what follows is as in an added entry.
pub proof fn law_book_update_is_read_in_order(f: Seq<Seq<u8>>, msg: ProtocolMessage)
    requires
        f.len() == 10 || f.len() == 12 && is_field(f[10]) && f[11].len() == 1 && is_field(f[11]),
        f[0] == seq![66u8],
        f[2] == seq![85u8],
        is_field(f[1]),
        is_count(f[3], u32::MAX as nat),
        is_count(f[4], u32::MAX as nat),
        f[5] == seq![65u8] || f[5] == seq![86u8],
        is_amount(f[6]),
        is_count(f[7], u64::MAX as nat),
        is_count(f[8], u32::MAX as nat),
        is_count(f[9], u32::MAX as nat),
    ensures
        is_accepted(FrameKind::Newline, f),
        reads(FrameKind::Newline, f, msg) ==> (msg matches
            ProtocolMessage::Book { ticker, op: BookOp::Update { old_pos, entry: e } }
            && wire::content(ticker) == f[1] && e.position == text::number(f[3]) && old_pos
            == text::number(f[4]) && stands_for(f[5], e.side) && e.price@ == f[6] && e.quantity
            == text::number(f[7]) && e.broker_id == text::number(f[8]) && e.timestamp_ddmmhhmm
            == text::number(f[9]) && (e.order_id is Some <==> f.len() == 12) && (
        e.order_id matches Some(id) ==> wire::content(id) == f[10]) && (e.offer_type is Some
            <==> f.len() == 12) && (e.offer_type matches Some(b) ==> f[11] == seq![b])),
{
    lemma_letters();
    lemma_one_letter(85);
    lemma_letters_differ(85, 65);
    lemma_count(f[3], u32::MAX as nat);
    lemma_count(f[4], u32::MAX as nat);
    lemma_side(f[5]);
    lemma_count(f[7], u64::MAX as nat);
    lemma_count(f[8], u32::MAX as nat);
    lemma_count(f[9], u32::MAX as nat);
    lemma_frame(f, Header::Book);
    assert(f.len() == 12 ==> f[11] =~= seq![f[11][0]]);
    assert(bqt::fault(f) is None);
}

/// Deletes of the detailed book, and its end marker: `1` is one entry, `2` is
/// all up to one, both by side and position, and `3` is everything.
pub proof fn law_book_deletes_are_read(f: Seq<Seq<u8>>, msg: ProtocolMessage)
    requires
        f.len() == 3 && f[2] == seq![69u8] || f.len() == 4 && f[2] == seq![68u8] && f[3]
            == seq![51u8] || f.len() == 6 && f[2] == seq![68u8] && (f[3] == seq![49u8] || f[3]
            == seq![50u8]) && (f[4] == seq![65u8] || f[4] == seq![86u8]) && is_count(
            f[5],
            u32::MAX as nat,
        ),
        f[0] == seq![66u8],
        is_field(f[1]),
    ensures
        is_accepted(FrameKind::Newline, f),
        reads(FrameKind::Newline, f, msg) ==> (msg matches
            ProtocolMessage::Book { ticker, op } && wire::content(ticker) == f[1] && (f.len() == 3
            ==> op is EndOfInitial) && (f.len() == 4 ==> op == BookOp::Delete(
            BookDelete::ClearAll,
        )) && (f.len() == 6 && f[3] == seq![49u8] ==> (op matches BookOp::Delete(
            BookDelete::Single { side, position },
        ) && stands_for(f[4], side) && position == text::number(f[5]))) && (f.len() == 6 && f[3]
            == seq![50u8] ==> (op matches BookOp::Delete(
            BookDelete::PrefixInclusive { side, position },
        ) && stands_for(f[4], side) && position == text::number(f[5])))),
{
    lemma_letters();
    lemma_one_letter(69);
    lemma_one_letter(68);
    lemma_one_letter(51);
    lemma_one_letter(50);
    lemma_one_letter(49);
    lemma_letters_differ(69, 65);
    lemma_letters_differ(69, 85);
    lemma_letters_differ(69, 68);
    lemma_letters_differ(68, 65);
    lemma_letters_differ(68, 85);
    lemma_letters_differ(51, 49);
    lemma_letters_differ(51, 50);
    lemma_letters_differ(50, 49);
    if f.len() == 6 {
        lemma_side(f[4]);
        lemma_count(f[5], u32::MAX as nat);
    }
    lemma_frame(f, Header::Book);
    assert(bqt::fault(f) is None);
}

/// A level of the aggregated book, added or updated: position, side, price,
/// quantity, count of offers and date, in this order.
pub proof fn law_level_is_read_in_order(f: Seq<Seq<u8>>, msg: ProtocolMessage)
    requires
        f.len() == 9,
        f[0] == seq![90u8],
        f[2] == seq![65u8] || f[2] == seq![85u8],
        is_field(f[1]),
        is_count(f[3], u32::MAX as nat),
        f[4] == seq![65u8] || f[4] == seq![86u8],
        is_amount(f[5]),
        is_count(f[6], u64::MAX as nat),
        is_count(f[7], u32::MAX as nat),
        is_count(f[8], u32::MAX as nat),
    ensures
        is_accepted(FrameKind::Newline, f),
        reads(FrameKind::Newline, f, msg) ==> (msg matches
            ProtocolMessage::AggBook { ticker, op } && wire::content(ticker) == f[1] && (f[2]
            == seq![65u8] ==> op is Add) && (f[2] == seq![85u8] ==> op is Update) && (op matches
            AggBookOp::Add(l) ==> l.position == text::number(f[3]) && stands_for(f[4], l.side)
            && l.price@ == f[5] && l.quantity == text::number(f[6]) && l.offer_count
            == text::number(f[7]) && l.timestamp_ddmmhhmm == text::number(f[8])) && (op matches
            AggBookOp::Update(l) ==> l.position == text::number(f[3]) && stands_for(f[4], l.side)
            && l.price@ == f[5] && l.quantity == text::number(f[6]) && l.offer_count
            == text::number(f[7]) && l.timestamp_ddmmhhmm == text::number(f[8]))),
{
    lemma_letters();
    lemma_one_letter(65);
    lemma_one_letter(85);
    lemma_letters_differ(85, 65);
    lemma_count(f[3], u32::MAX as nat);
    lemma_side(f[4]);
    lemma_count(f[6], u64::MAX as nat);
    lemma_count(f[7], u32::MAX as nat);
    lemma_count(f[8], u32::MAX as nat);
    lemma_frame(f, Header::AggBook);
    assert(sab::fault(f) is None);
}

/// Deletes of the aggregated book, and its end marker: as in the detailed book,
/// but for `2`, which is refused.
pub proof fn law_level_deletes_are_read(f: Seq<Seq<u8>>, msg: ProtocolMessage, e: ParseError)
    requires
        f.len() == 3 && f[2] == seq![69u8] || f.len() == 4 && f[2] == seq![68u8] && f[3]
            == seq![51u8] || f.len() == 6 && f[2] == seq![68u8] && (f[3] == seq![49u8] || f[3]
            == seq![50u8]) && (f[4] == seq![65u8] || f[4] == seq![86u8]) && is_count(
            f[5],
            u32::MAX as nat,
        ),
        f[0] == seq![90u8],
        is_field(f[1]),
    ensures
        f.len() != 6 || f[3] != seq![50u8] ==> is_accepted(FrameKind::Newline, f),
        f.len() == 6 && f[3] == seq![50u8] ==> is_rejected(FrameKind::Newline, f),
        refuses(FrameKind::Newline, f, e) ==> e
            == (ParseError::InvalidField {
            field: "delete kind",
            reason: "SAB does not accept delete kind 2 (BQT-only)",
        }),
        reads(FrameKind::Newline, f, msg) ==> (msg matches
            ProtocolMessage::AggBook { ticker, op } && wire::content(ticker) == f[1] && (f.len()
            == 3 ==> op is EndOfInitial) && (f.len() == 4 ==> op == AggBookOp::Delete(
            BookDelete::ClearAll,
        )) && (f.len() == 6 ==> (op matches AggBookOp::Delete(BookDelete::Single { side, position })
            && stands_for(f[4], side) && position == text::number(f[5])))),
{
    lemma_letters();
    lemma_one_letter(69);
    lemma_one_letter(68);
    lemma_one_letter(51);
    lemma_one_letter(50);
    lemma_one_letter(49);
    lemma_letters_differ(69, 65);
    lemma_letters_differ(69, 85);
    lemma_letters_differ(69, 68);
    lemma_letters_differ(68, 65);
    lemma_letters_differ(68, 85);
    lemma_letters_differ(51, 49);
    lemma_letters_differ(51, 50);
    lemma_letters_differ(50, 49);
    if f.len() == 6 {
        lemma_side(f[4]);
        lemma_count(f[5], u32::MAX as nat);
    }
    lemma_frame(f, Header::AggBook);
    if f.len() == 6 && f[3] == seq![50u8] {
        assert(sab::fault(f) is Some);
    } else {
        assert(sab::fault(f) is None);
    }
}

} // verus!
