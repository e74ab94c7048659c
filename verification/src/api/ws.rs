//! Messages of the WebSocket endpoint.
use crate::fanout::types;
use crate::fanout::types::Kind;
use crate::text;
use vstd::prelude::*;

verus! {

/// What a client can subscribe to.
#[derive(Debug, Clone, Copy, PartialEq, Eq, Structural)]
pub enum SubscribeChannel {
    Quote,
    Book,
    Trade,
}

/// The name of a channel.
pub open spec fn channel_text(c: SubscribeChannel) -> &'static str {
    match c {
        SubscribeChannel::Quote => "quote",
        SubscribeChannel::Book => "book",
        SubscribeChannel::Trade => "trade",
    }
}

/// What the subjects of a channel begin with.
pub open spec fn channel_prefix(c: SubscribeChannel) -> &'static str {
    match c {
        SubscribeChannel::Quote => "market.quote.",
        SubscribeChannel::Book => "market.book.",
        SubscribeChannel::Trade => "market.trade.",
    }
}

impl SubscribeChannel {
    /// The name of the channel.
    pub fn as_str(self) -> (r: &'static str)
        ensures
            r == channel_text(self),
    {
        match self {
            SubscribeChannel::Quote => "quote",
            SubscribeChannel::Book => "book",
            SubscribeChannel::Trade => "trade",
        }
    }

    /// What the subjects of the channel begin with; the ticker follows.
    pub fn nats_prefix(self) -> (r: &'static str)
        ensures
            r == channel_prefix(self),
    {
        match self {
            SubscribeChannel::Quote => "market.quote.",
            SubscribeChannel::Book => "market.book.",
            SubscribeChannel::Trade => "market.trade.",
        }
    }
}

/// What a client says.
#[derive(Debug, Clone)]
pub enum ClientMessage {
    Sub { channel: SubscribeChannel, ticker: String },
    Unsub { channel: SubscribeChannel, ticker: String },
    Ping { ts: i64 },
}

/// What the server says.
#[derive(Debug, Clone)]
pub enum ServerMessage {
    Snap { channel: SubscribeChannel, ticker: String, data: Vec<u8> },
    Upd { channel: SubscribeChannel, ticker: String, data: Vec<u8> },
    Pong { ts: i64 },
    Failure { code: &'static str, message: String, ticker: Option<String> },
}

/// The published kind that a channel carries.
pub open spec fn published_kind(c: SubscribeChannel) -> Kind {
    match c {
        SubscribeChannel::Quote => Kind::Quote,
        SubscribeChannel::Book => Kind::Book,
        SubscribeChannel::Trade => Kind::Trade,
    }
}

/// What is published is heard: a channel's prefix and a ticker make up the
/// subject that its updates go to.
pub proof fn law_subscriptions_hear_updates(c: SubscribeChannel, ticker: Seq<char>)
    ensures
        channel_prefix(c)@ + ticker == types::subject(
            published_kind(c),
            vstd::utf8::encode_utf8(ticker),
        ),
{
    text::law_text_is_readable(ticker);
    reveal_strlit("market.");
    reveal_strlit(".");
    reveal_strlit("quote");
    reveal_strlit("book");
    reveal_strlit("trade");
    reveal_strlit("market.quote.");
    reveal_strlit("market.book.");
    reveal_strlit("market.trade.");
    assert(channel_prefix(c)@ =~= "market."@ + types::kind_text(published_kind(c))@ + "."@);
    assert(channel_prefix(c)@ + ticker =~= types::subject(
        published_kind(c),
        vstd::utf8::encode_utf8(ticker),
    ));
}

/// The channels, their subjects, and the kinds that they carry.
pub proof fn law_channels_are_named()
    ensures
        channel_text(SubscribeChannel::Quote) == "quote",
        channel_text(SubscribeChannel::Book) == "book",
        channel_text(SubscribeChannel::Trade) == "trade",
        channel_prefix(SubscribeChannel::Quote) == "market.quote.",
        channel_prefix(SubscribeChannel::Book) == "market.book.",
        channel_prefix(SubscribeChannel::Trade) == "market.trade.",
        published_kind(SubscribeChannel::Quote) == Kind::Quote,
        published_kind(SubscribeChannel::Book) == Kind::Book,
        published_kind(SubscribeChannel::Trade) == Kind::Trade,
{
}

} // verus!
