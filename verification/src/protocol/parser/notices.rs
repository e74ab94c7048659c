//! The layouts of news, server time, catalog, broker and error frames.
use crate::protocol::frame::FrameKind;
use crate::protocol::parser::layouts;
use crate::protocol::parser::{nem, scanner};
use crate::protocol::parser::Header;
use crate::protocol::types::{MqcItem, NewsMessage, ProtocolMessage};
use crate::text;
use crate::wire;
use vstd::prelude::*;

verus! {

/// Each field from `from` on holds no colon.
pub open spec fn are_fields(f: Seq<Seq<u8>>, from: int) -> bool {
    forall|i: int| from <= i < f.len() ==> layouts::is_field(#[trigger] f[i])
}

/// A live headline: agency, code, date, time and category stand behind `A` in
/// this order, and what follows the length of the title is the title, colons
/// and all.
pub proof fn law_headline_is_read_in_order(f: Seq<Seq<u8>>, msg: ProtocolMessage)
    requires
        f.len() >= 8,
        f[0] == seq![79u8],
        f[1] == seq![65u8],
        are_fields(f, 2),
        layouts::is_count(f[4], u32::MAX as nat),
        layouts::is_count(f[5], u32::MAX as nat),
        layouts::is_count(f[6], u32::MAX as nat),
    ensures
        layouts::is_accepted(FrameKind::Newline, f),
        layouts::reads(FrameKind::Newline, f, msg) ==> (msg matches ProtocolMessage::News(
            NewsMessage::Headline(h),
        ) && wire::content(h.agency) == f[2] && wire::content(h.code) == f[3] && h.date
            == text::number(f[4]) && h.time == text::number(f[5]) && h.category == text::number(
            f[6],
        ) && wire::content(h.title) == scanner::join(f.skip(8))),
{
    layouts::lemma_letters();
    layouts::lemma_one_letter(65);
    layouts::lemma_count(f[4], u32::MAX as nat);
    layouts::lemma_count(f[5], u32::MAX as nat);
    layouts::lemma_count(f[6], u32::MAX as nat);
    layouts::lemma_frame(f, Header::News);
    assert(nem::headline_fault(f, 3) is None);
}

/// An item of a history list: as a live headline, with the request id before the
/// agency.
pub proof fn law_history_item_is_read_in_order(f: Seq<Seq<u8>>, msg: ProtocolMessage)
    requires
        f.len() >= 9,
        f[0] == seq![79u8],
        f[1] == seq![76u8],
        are_fields(f, 2),
        f[3] != seq![69u8, 78, 68],
        layouts::is_count(f[5], u32::MAX as nat),
        layouts::is_count(f[6], u32::MAX as nat),
        layouts::is_count(f[7], u32::MAX as nat),
    ensures
        layouts::is_accepted(FrameKind::Newline, f),
        layouts::reads(FrameKind::Newline, f, msg) ==> (msg matches ProtocolMessage::News(
            NewsMessage::HistoryItem { request_id, headline: h },
        ) && wire::content(request_id) == f[2] && wire::content(h.agency) == f[3]
            && wire::content(h.code) == f[4] && h.date == text::number(f[5]) && h.time
            == text::number(f[6]) && h.category == text::number(f[7]) && wire::content(h.title)
            == scanner::join(f.skip(9))),
{
    layouts::lemma_letters();
    lemma_end_word();
    layouts::lemma_one_letter(76);
    layouts::lemma_letters_differ(76, 65);
    layouts::lemma_count(f[5], u32::MAX as nat);
    layouts::lemma_count(f[6], u32::MAX as nat);
    layouts::lemma_count(f[7], u32::MAX as nat);
    layouts::lemma_frame(f, Header::News);
    assert(nem::headline_fault(f, 4) is None);
}

pub(crate) proof fn lemma_end_word()
    ensures
        text::bytes_of("END") == seq![69u8, 78, 68],
{
    reveal_strlit("END");
    text::lemma_ascii_bytes("END");
    assert(text::bytes_of("END") =~= seq![69u8, 78, 68]);
}

/// `END` in place of an agency closes a history list.
pub proof fn law_history_end_is_read(f: Seq<Seq<u8>>, msg: ProtocolMessage)
    requires
        f.len() >= 4,
        f[0] == seq![79u8],
        f[1] == seq![76u8],
        are_fields(f, 2),
        f[3] == seq![69u8, 78, 68],
    ensures
        layouts::is_accepted(FrameKind::Newline, f),
        layouts::reads(FrameKind::Newline, f, msg) ==> (msg matches ProtocolMessage::News(
            NewsMessage::HistoryEnd { request_id },
        ) && wire::content(request_id) == f[2]),
{
    layouts::lemma_letters();
    lemma_end_word();
    layouts::lemma_one_letter(76);
    layouts::lemma_letters_differ(76, 65);
    layouts::lemma_frame(f, Header::News);
}

/// A body: request id, agency and code stand behind `N` in this order, and what
/// follows is the body, colons and all.
pub proof fn law_news_body_is_read_in_order(f: Seq<Seq<u8>>, msg: ProtocolMessage)
    requires
        f.len() >= 5,
        f[0] == seq![79u8],
        f[1] == seq![78u8],
        are_fields(f, 2),
    ensures
        layouts::is_accepted(FrameKind::Newline, f),
        layouts::reads(FrameKind::Newline, f, msg) ==> (msg matches ProtocolMessage::News(
            NewsMessage::Body { request_id, agency, code, body_raw },
        ) && wire::content(request_id) == f[2] && wire::content(agency) == f[3]
            && wire::content(code) == f[4] && wire::content(body_raw) == scanner::join(f.skip(5))),
{
    layouts::lemma_letters();
    layouts::lemma_one_letter(78);
    layouts::lemma_letters_differ(78, 65);
    layouts::lemma_letters_differ(78, 76);
    layouts::lemma_frame(f, Header::News);
}

/// The server's time: the first eight digits are the date and the last six the
/// time.
pub proof fn law_server_time_is_date_and_time(
    date: Seq<u8>,
    time: Seq<u8>,
    f: Seq<Seq<u8>>,
    msg: ProtocolMessage,
)
    requires
        date.len() == 8 && layouts::is_count(date, u32::MAX as nat),
        time.len() == 6 && layouts::is_count(time, u32::MAX as nat),
        f == seq![seq![71u8, 84, 67], date + time],
    ensures
        layouts::is_accepted(FrameKind::Newline, f),
        layouts::reads(FrameKind::Newline, f, msg) ==> (msg matches ProtocolMessage::ServerTime(t)
            && t.date == text::number(date) && t.time == text::number(time)),
{
    layouts::lemma_count(date, u32::MAX as nat);
    layouts::lemma_count(time, u32::MAX as nat);
    let both = date + time;
    assert(both.take(8) =~= date);
    assert(both.skip(8) =~= time);
    if both.contains(58) {
        let i = choose|i: int| 0 <= i < both.len() && both[i] == 58;
        if i < 8 {
            assert(date[i] == 58);
        } else {
            assert(time[i - 8] == 58);
        }
    }
    assert(f[1] == both);
    layouts::lemma_frame(f, Header::ServerTime);
}

/// A catalog line gives its market before its ticker; only `E` behind the market
/// and nothing more ends the list.
pub proof fn law_catalog_line_is_read_in_order(f: Seq<Seq<u8>>, msg: ProtocolMessage)
    requires
        f.len() >= 3,
        f[0] == seq![67u8],
        are_fields(f, 1),
    ensures
        layouts::is_accepted(FrameKind::Newline, f),
        layouts::reads(FrameKind::Newline, f, msg) && f.len() == 3 && f[2] == seq![69u8] ==> (
        msg matches ProtocolMessage::MqcItem(MqcItem::End { market }) && wire::content(market)
            == f[1]),
        layouts::reads(FrameKind::Newline, f, msg) && !(f.len() == 3 && f[2] == seq![69u8]) ==> (
        msg matches ProtocolMessage::MqcItem(MqcItem::Symbol { market, ticker }) && wire::content(
            market,
        ) == f[1] && wire::content(ticker) == f[2]),
{
    layouts::lemma_letters();
    layouts::lemma_frame(f, Header::Catalog);
}

/// A broker line: exchange, code, name, id and the flag, which is `1` for an
/// active broker and `0` for another, and nothing else.
pub proof fn law_broker_line_is_read_in_order(f: Seq<Seq<u8>>, msg: ProtocolMessage)
    requires
        f.len() >= 6,
        f[0] == seq![71u8],
        are_fields(f, 1),
    ensures
        f[5] == seq![49u8] || f[5] == seq![48u8] ==> layouts::is_accepted(FrameKind::Newline, f),
        f[5] != seq![49u8] && f[5] != seq![48u8] ==> layouts::is_rejected(FrameKind::Newline, f),
        layouts::reads(FrameKind::Newline, f, msg) ==> (msg matches ProtocolMessage::GpnItem(item)
            && wire::content(item.exchange) == f[1] && wire::content(item.code) == f[2]
            && wire::content(item.name) == f[3] && wire::content(item.cedro_id) == f[4] && (
        item.active <==> f[5] == seq![49u8])),
{
    layouts::lemma_letters();
    layouts::lemma_frame(f, Header::Broker);
}

/// An error of the server: its code, and every field behind it as context, in
/// order.
pub proof fn law_error_is_read_in_order(f: Seq<Seq<u8>>, msg: ProtocolMessage, i: int)
    requires
        f.len() >= 2,
        f[0] == seq![69u8],
        are_fields(f, 1),
        layouts::is_count(f[1], u16::MAX as nat),
        0 <= i < f.len() - 2,
    ensures
        layouts::is_accepted(FrameKind::Newline, f),
        layouts::reads(FrameKind::Newline, f, msg) ==> (msg matches ProtocolMessage::Error(e)
            && e.code == text::number(f[1]) && e.context@.len() == f.len() - 2 && wire::content(
            e.context@[i],
        ) == f[i + 2]),
{
    layouts::lemma_count(f[1], u16::MAX as nat);
    layouts::lemma_frame(f, Header::Error);
}

} // verus!
