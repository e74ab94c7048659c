//! Commands to the server, one line each.
//!
//! [`CommandSink`] collects the lines; whoever owns the socket takes them out
//! and writes them. Tickers, markets and agencies go in as they are: the caller
//! minds the server's limits on them.
use crate::text;
use vstd::prelude::*;

verus! {

/// A command as it goes over the wire.
pub open spec fn line(command: Seq<char>) -> Seq<char> {
    command + "\n"@
}

/// Lines that wait to be written.
#[derive(Debug)]
pub struct CommandSink {
    pending: String,
}

impl View for CommandSink {
    type V = Seq<char>;

    closed spec fn view(&self) -> Seq<char> {
        self.pending@
    }
}

impl CommandSink {
    /// A sink without lines.
    pub fn new() -> (r: Self)
        ensures
            r@ == Seq::<char>::empty(),
    {
        CommandSink { pending: String::new() }
    }

    /// Takes out all lines that wait.
    pub fn take_pending(&mut self) -> (r: String)
        ensures
            r@ == old(self)@,
            final(self)@ == Seq::<char>::empty(),
    {
        let mut out: String = String::new();
        std::mem::swap(&mut out, &mut self.pending);
        out
    }

    /// Subscribes to a quote. With `snapshot_only` the server answers once
    /// instead of opening a stream.
    pub fn subscribe_quote(&mut self, ticker: &str, snapshot_only: bool)
        ensures
            final(self)@ == old(self)@ + line(
                if snapshot_only {
                    "SQT "@ + ticker@ + " N"@
                } else {
                    "SQT "@ + ticker@
                },
            ),
    {
        if snapshot_only {
            self.write_line3("SQT ", ticker, " N");
        } else {
            self.write_line("SQT ", ticker);
        }
    }

    /// Ends a quote subscription.
    pub fn unsubscribe_quote(&mut self, ticker: &str)
        ensures
            final(self)@ == old(self)@ + line("USQ "@ + ticker@),
    {
        self.write_line("USQ ", ticker);
    }

    /// Subscribes to a detailed order book.
    pub fn subscribe_book_detailed(&mut self, ticker: &str)
        ensures
            final(self)@ == old(self)@ + line("BQT "@ + ticker@),
    {
        self.write_line("BQT ", ticker);
    }

    /// Ends a detailed book subscription.
    pub fn unsubscribe_book_detailed(&mut self, ticker: &str)
        ensures
            final(self)@ == old(self)@ + line("UBQ "@ + ticker@),
    {
        self.write_line("UBQ ", ticker);
    }

    /// Subscribes to an aggregated book. With `snapshot_only` the server
    /// answers once.
    pub fn subscribe_book_aggregated(&mut self, ticker: &str, snapshot_only: bool)
        ensures
            final(self)@ == old(self)@ + line(
                if snapshot_only {
                    "SAB "@ + ticker@ + " N"@
                } else {
                    "SAB "@ + ticker@
                },
            ),
    {
        if snapshot_only {
            self.write_line3("SAB ", ticker, " N");
        } else {
            self.write_line("SAB ", ticker);
        }
    }

    /// Ends an aggregated book subscription.
    pub fn unsubscribe_book_aggregated(&mut self, ticker: &str)
        ensures
            final(self)@ == old(self)@ + line("UAB "@ + ticker@),
    {
        self.write_line("UAB ", ticker);
    }

    /// Subscribes to the trades of a ticker, with `history_count` past ones.
    pub fn subscribe_trades(&mut self, ticker: &str, history_count: Option<u32>)
        ensures
            final(self)@ == old(self)@ + line(
                match history_count {
                    Some(n) => "GQT "@ + ticker@ + " S "@ + text::decimal(n as nat),
                    None => "GQT "@ + ticker@ + " S"@,
                },
            ),
    {
        match history_count {
            Some(n) => {
                let ghost before = self.pending@;
                self.pending.append("GQT ");
                self.pending.append(ticker);
                self.pending.append(" S ");
                text::push_decimal(&mut self.pending, n as u64);
                self.pending.append("\n");
                assert(self.pending@ =~= before + line(
                    "GQT "@ + ticker@ + " S "@ + text::decimal(n as nat),
                ));
            },
            None => {
                self.write_line3("GQT ", ticker, " S");
            },
        }
    }

    /// Ends a trade subscription.
    pub fn unsubscribe_trades(&mut self, ticker: &str)
        ensures
            final(self)@ == old(self)@ + line("UQT "@ + ticker@),
    {
        self.write_line("UQT ", ticker);
    }

    /// Asks for the tickers of a market. The form with a subtype is the one
    /// for futures and options on futures.
    pub fn list_market(&mut self, market: &str, asset_type: u16, subtype: Option<u16>)
        ensures
            final(self)@ == old(self)@ + line(
                match subtype {
                    Some(s) => "MQC "@ + market@ + " T "@ + text::decimal(asset_type as nat)
                        + " S "@ + text::decimal(s as nat),
                    None => "MQC "@ + market@ + " "@ + text::decimal(asset_type as nat),
                },
            ),
    {
        let ghost before = self.pending@;
        self.pending.append("MQC ");
        self.pending.append(market);
        match subtype {
            Some(s) => {
                self.pending.append(" T ");
                text::push_decimal(&mut self.pending, asset_type as u64);
                self.pending.append(" S ");
                text::push_decimal(&mut self.pending, s as u64);
                self.pending.append("\n");
                assert(self.pending@ =~= before + line(
                    "MQC "@ + market@ + " T "@ + text::decimal(asset_type as nat) + " S "@
                        + text::decimal(s as nat),
                ));
            },
            None => {
                self.pending.append(" ");
                text::push_decimal(&mut self.pending, asset_type as u64);
                self.pending.append("\n");
                assert(self.pending@ =~= before + line(
                    "MQC "@ + market@ + " "@ + text::decimal(asset_type as nat),
                ));
            },
        }
    }

    /// Asks for the brokers of a market.
    pub fn list_brokers(&mut self, market: &str)
        ensures
            final(self)@ == old(self)@ + line("GPN "@ + market@),
    {
        self.write_line("GPN ", market);
    }

    /// Subscribes to the headlines of an agency.
    pub fn subscribe_news(&mut self, agency: &str)
        ensures
            final(self)@ == old(self)@ + line("NEM A "@ + agency@),
    {
        self.write_line("NEM A ", agency);
    }

    /// Ends a news subscription.
    pub fn unsubscribe_news(&mut self, agency: &str)
        ensures
            final(self)@ == old(self)@ + line("UNE "@ + agency@),
    {
        self.write_line("UNE ", agency);
    }

    /// Asks for the server's clock.
    pub fn get_server_time(&mut self)
        ensures
            final(self)@ == old(self)@ + line("GTC"@),
    {
        self.write_line("GTC", "");
        proof {
            reveal_strlit("");
            assert("GTC"@ + ""@ =~= "GTC"@);
        }
    }

    /// Ends the session.
    pub fn quit(&mut self)
        ensures
            final(self)@ == old(self)@ + line("QUIT"@),
    {
        self.write_line("QUIT", "");
        proof {
            reveal_strlit("");
            assert("QUIT"@ + ""@ =~= "QUIT"@);
        }
    }

    /// Appends a line of two parts.
    fn write_line(&mut self, a: &str, b: &str)
        ensures
            final(self)@ == old(self)@ + line(a@ + b@),
    {
        let ghost before = self.pending@;
        self.pending.append(a);
        self.pending.append(b);
        self.pending.append("\n");
        assert(self.pending@ =~= before + line(a@ + b@));
    }

    /// Appends a line of three parts.
    fn write_line3(&mut self, a: &str, b: &str, c: &str)
        ensures
            final(self)@ == old(self)@ + line(a@ + b@ + c@),
    {
        let ghost before = self.pending@;
        self.pending.append(a);
        self.pending.append(b);
        self.pending.append(c);
        self.pending.append("\n");
        assert(self.pending@ =~= before + line(a@ + b@ + c@));
    }
}

impl Default for CommandSink {
    fn default() -> (r: Self)
        ensures
            r@ == Seq::<char>::empty(),
    {
        CommandSink::new()
    }
}

/// A command is one line: where its arguments hold no newline, the only one is
/// at its end.
pub proof fn law_one_line_per_command(command: Seq<char>, i: int)
    requires
        !command.contains('\n'),
        0 <= i < line(command).len(),
    ensures
        line(command)[i] == '\n' <==> i == line(command).len() - 1,
{
    reveal_strlit("\n");
    if i < command.len() {
        assert(command.contains(line(command)[i]));
    }
}

/// A command goes out as it is, with one newline behind it.
pub proof fn law_newline_ends_a_command(command: Seq<char>)
    ensures
        line(command) == command.push('\n'),
{
    reveal_strlit("\n");
    assert(line(command) =~= command.push('\n'));
}

/// Quotes are asked for by `SQT`, once by a trailing `N`, and given up by `USQ`.
pub proof fn law_quotes_are_spelled(ticker: &str)
    ensures
        forall|sink: &mut CommandSink| #[trigger]
            call_ensures(CommandSink::subscribe_quote, (sink, ticker, false), ())
                ==> final(sink)@ == (*sink)@
                + ("SQT "@ + ticker@ + "\n"@),
        forall|sink: &mut CommandSink| #[trigger]
            call_ensures(CommandSink::subscribe_quote, (sink, ticker, true), ())
                ==> final(sink)@ == (*sink)@
                + ("SQT "@ + ticker@ + " N\n"@),
        forall|sink: &mut CommandSink| #[trigger]
            call_ensures(CommandSink::unsubscribe_quote, (sink, ticker), ())
                ==> final(sink)@ == (*sink)@
                + ("USQ "@ + ticker@ + "\n"@),
{
    reveal_strlit(" N");
    reveal_strlit(" N\n");
    reveal_strlit("SQT ");
    reveal_strlit("USQ ");
    reveal_strlit("\n");
    assert forall|sink: &mut CommandSink| #[trigger]
        call_ensures(CommandSink::subscribe_quote, (sink, ticker, false), ())
            implies final(sink)@ == (*sink)@
        + ("SQT "@ + ticker@ + "\n"@) by {
        assert(final(sink)@ =~= (*sink)@ + ("SQT "@ + ticker@ + "\n"@));
    }
    assert forall|sink: &mut CommandSink| #[trigger]
        call_ensures(CommandSink::subscribe_quote, (sink, ticker, true), ())
            implies final(sink)@ == (*sink)@
        + ("SQT "@ + ticker@ + " N\n"@) by {
        assert(final(sink)@ =~= (*sink)@ + ("SQT "@ + ticker@ + " N\n"@));
    }
    assert forall|sink: &mut CommandSink| #[trigger]
        call_ensures(CommandSink::unsubscribe_quote, (sink, ticker), ())
            implies final(sink)@ == (*sink)@
        + ("USQ "@ + ticker@ + "\n"@) by {
        assert(final(sink)@ =~= (*sink)@ + ("USQ "@ + ticker@ + "\n"@));
    }
}

/// Books are asked for by `BQT` and `SAB`, and given up by `UBQ` and `UAB`.
pub proof fn law_books_are_spelled(ticker: &str)
    ensures
        forall|sink: &mut CommandSink| #[trigger]
            call_ensures(CommandSink::subscribe_book_detailed, (sink, ticker), ())
                ==> final(sink)@ == (*sink)@
                + ("BQT "@ + ticker@ + "\n"@),
        forall|sink: &mut CommandSink| #[trigger]
            call_ensures(CommandSink::unsubscribe_book_detailed, (sink, ticker), ())
                ==> final(sink)@ == (*sink)@
                + ("UBQ "@ + ticker@ + "\n"@),
        forall|sink: &mut CommandSink| #[trigger]
            call_ensures(CommandSink::subscribe_book_aggregated, (sink, ticker, false), ())
                ==> final(sink)@ == (*sink)@
                + ("SAB "@ + ticker@ + "\n"@),
        forall|sink: &mut CommandSink| #[trigger]
            call_ensures(CommandSink::subscribe_book_aggregated, (sink, ticker, true), ())
                ==> final(sink)@ == (*sink)@
                + ("SAB "@ + ticker@ + " N\n"@),
        forall|sink: &mut CommandSink| #[trigger]
            call_ensures(CommandSink::unsubscribe_book_aggregated, (sink, ticker), ())
                ==> final(sink)@ == (*sink)@
                + ("UAB "@ + ticker@ + "\n"@),
{
    reveal_strlit(" N");
    reveal_strlit(" N\n");
    reveal_strlit("BQT ");
    reveal_strlit("SAB ");
    reveal_strlit("UAB ");
    reveal_strlit("UBQ ");
    reveal_strlit("\n");
    assert forall|sink: &mut CommandSink| #[trigger]
        call_ensures(CommandSink::subscribe_book_detailed, (sink, ticker), ())
            implies final(sink)@ == (*sink)@
        + ("BQT "@ + ticker@ + "\n"@) by {
        assert(final(sink)@ =~= (*sink)@ + ("BQT "@ + ticker@ + "\n"@));
    }
    assert forall|sink: &mut CommandSink| #[trigger]
        call_ensures(CommandSink::unsubscribe_book_detailed, (sink, ticker), ())
            implies final(sink)@ == (*sink)@
        + ("UBQ "@ + ticker@ + "\n"@) by {
        assert(final(sink)@ =~= (*sink)@ + ("UBQ "@ + ticker@ + "\n"@));
    }
    assert forall|sink: &mut CommandSink| #[trigger]
        call_ensures(CommandSink::subscribe_book_aggregated, (sink, ticker, false), ())
            implies final(sink)@ == (*sink)@
        + ("SAB "@ + ticker@ + "\n"@) by {
        assert(final(sink)@ =~= (*sink)@ + ("SAB "@ + ticker@ + "\n"@));
    }
    assert forall|sink: &mut CommandSink| #[trigger]
        call_ensures(CommandSink::subscribe_book_aggregated, (sink, ticker, true), ())
            implies final(sink)@ == (*sink)@
        + ("SAB "@ + ticker@ + " N\n"@) by {
        assert(final(sink)@ =~= (*sink)@ + ("SAB "@ + ticker@ + " N\n"@));
    }
    assert forall|sink: &mut CommandSink| #[trigger]
        call_ensures(CommandSink::unsubscribe_book_aggregated, (sink, ticker), ())
            implies final(sink)@ == (*sink)@
        + ("UAB "@ + ticker@ + "\n"@) by {
        assert(final(sink)@ =~= (*sink)@ + ("UAB "@ + ticker@ + "\n"@));
    }
}

/// Trades are asked for by `GQT`, with so many past ones, and given up by `UQT`.
pub proof fn law_trades_are_spelled(ticker: &str, n: u32)
    ensures
        forall|sink: &mut CommandSink| #[trigger]
            call_ensures(CommandSink::subscribe_trades, (sink, ticker, None), ())
                ==> final(sink)@ == (*sink)@
                + ("GQT "@ + ticker@ + " S\n"@),
        forall|sink: &mut CommandSink| #[trigger]
            call_ensures(CommandSink::subscribe_trades, (sink, ticker, Some(n)), ())
                ==> final(sink)@ == (*sink)@
                + ("GQT "@ + ticker@ + " S "@ + text::decimal(n as nat) + "\n"@),
        forall|sink: &mut CommandSink| #[trigger]
            call_ensures(CommandSink::unsubscribe_trades, (sink, ticker), ())
                ==> final(sink)@ == (*sink)@
                + ("UQT "@ + ticker@ + "\n"@),
{
    reveal_strlit(" S ");
    reveal_strlit(" S");
    reveal_strlit(" S\n");
    reveal_strlit("GQT ");
    reveal_strlit("UQT ");
    reveal_strlit("\n");
    assert forall|sink: &mut CommandSink| #[trigger]
        call_ensures(CommandSink::subscribe_trades, (sink, ticker, None), ())
            implies final(sink)@ == (*sink)@
        + ("GQT "@ + ticker@ + " S\n"@) by {
        assert(final(sink)@ =~= (*sink)@ + ("GQT "@ + ticker@ + " S\n"@));
    }
    assert forall|sink: &mut CommandSink| #[trigger]
        call_ensures(CommandSink::subscribe_trades, (sink, ticker, Some(n)), ())
            implies final(sink)@ == (*sink)@
        + ("GQT "@ + ticker@ + " S "@ + text::decimal(n as nat) + "\n"@) by {
        assert(final(sink)@ =~= (*sink)@ + ("GQT "@ + ticker@ + " S "@
            + text::decimal(n as nat) + "\n"@));
    }
    assert forall|sink: &mut CommandSink| #[trigger]
        call_ensures(CommandSink::unsubscribe_trades, (sink, ticker), ())
            implies final(sink)@ == (*sink)@
        + ("UQT "@ + ticker@ + "\n"@) by {
        assert(final(sink)@ =~= (*sink)@ + ("UQT "@ + ticker@ + "\n"@));
    }
}

/// Symbols are listed by `MQC`, by type or by type and subtype, and brokers by `GPN`.
pub proof fn law_lists_are_spelled(market: &str, asset_type: u16, subtype: u16)
    ensures
        forall|sink: &mut CommandSink| #[trigger]
            call_ensures(CommandSink::list_market, (sink, market, asset_type, None), ())
                ==> final(sink)@ == (*sink)@
                + ("MQC "@ + market@ + " "@ + text::decimal(asset_type as nat) + "\n"@),
        forall|sink: &mut CommandSink| #[trigger]
            call_ensures(CommandSink::list_market, (sink, market, asset_type, Some(subtype)), ())
                ==> final(sink)@ == (*sink)@
                + ("MQC "@ + market@ + " T "@ + text::decimal(asset_type as nat) + " S "@
                    + text::decimal(subtype as nat) + "\n"@),
        forall|sink: &mut CommandSink| #[trigger]
            call_ensures(CommandSink::list_brokers, (sink, market), ()) ==> final(sink)@ == (*sink)@
                + ("GPN "@ + market@ + "\n"@),
{
    reveal_strlit(" ");
    reveal_strlit(" S ");
    reveal_strlit(" T ");
    reveal_strlit("GPN ");
    reveal_strlit("MQC ");
    reveal_strlit("\n");
    assert forall|sink: &mut CommandSink| #[trigger]
        call_ensures(CommandSink::list_market, (sink, market, asset_type, None), ())
            implies final(sink)@ == (*sink)@
        + ("MQC "@ + market@ + " "@ + text::decimal(asset_type as nat) + "\n"@) by {
        assert(final(sink)@ =~= (*sink)@ + ("MQC "@ + market@ + " "@
            + text::decimal(asset_type as nat) + "\n"@));
    }
    assert forall|sink: &mut CommandSink| #[trigger]
        call_ensures(CommandSink::list_market, (sink, market, asset_type, Some(subtype)), ())
            implies final(sink)@ == (*sink)@
        + ("MQC "@ + market@ + " T "@ + text::decimal(asset_type as nat) + " S "@
            + text::decimal(subtype as nat) + "\n"@) by {
        assert(final(sink)@ =~= (*sink)@ + ("MQC "@ + market@ + " T "@
            + text::decimal(asset_type as nat) + " S "@ + text::decimal(subtype as nat) + "\n"@));
    }
    assert forall|sink: &mut CommandSink| #[trigger]
        call_ensures(CommandSink::list_brokers, (sink, market), ()) implies final(sink)@ == (*sink)@
        + ("GPN "@ + market@ + "\n"@) by {
        assert(final(sink)@ =~= (*sink)@ + ("GPN "@ + market@ + "\n"@));
    }
}

/// News is asked for by `NEM A` and given up by `UNE`; `GTC` asks for the time, and
/// `QUIT` ends.
pub proof fn law_news_and_time_are_spelled(agency: &str)
    ensures
        forall|sink: &mut CommandSink| #[trigger]
            call_ensures(CommandSink::subscribe_news, (sink, agency), ())
                ==> final(sink)@ == (*sink)@
                + ("NEM A "@ + agency@ + "\n"@),
        forall|sink: &mut CommandSink| #[trigger]
            call_ensures(CommandSink::unsubscribe_news, (sink, agency), ())
                ==> final(sink)@ == (*sink)@
                + ("UNE "@ + agency@ + "\n"@),
        forall|sink: &mut CommandSink| #[trigger]
            call_ensures(CommandSink::get_server_time, (sink,), ()) ==> final(sink)@ == (*sink)@
                + ("GTC\n"@),
        forall|sink: &mut CommandSink| #[trigger]
            call_ensures(CommandSink::quit, (sink,), ()) ==> final(sink)@ == (*sink)@
                + ("QUIT\n"@),
{
    reveal_strlit("GTC");
    reveal_strlit("GTC\n");
    reveal_strlit("NEM A ");
    reveal_strlit("QUIT");
    reveal_strlit("QUIT\n");
    reveal_strlit("UNE ");
    reveal_strlit("\n");
    assert forall|sink: &mut CommandSink| #[trigger]
        call_ensures(CommandSink::subscribe_news, (sink, agency), ())
            implies final(sink)@ == (*sink)@
        + ("NEM A "@ + agency@ + "\n"@) by {
        assert(final(sink)@ =~= (*sink)@ + ("NEM A "@ + agency@ + "\n"@));
    }
    assert forall|sink: &mut CommandSink| #[trigger]
        call_ensures(CommandSink::unsubscribe_news, (sink, agency), ())
            implies final(sink)@ == (*sink)@
        + ("UNE "@ + agency@ + "\n"@) by {
        assert(final(sink)@ =~= (*sink)@ + ("UNE "@ + agency@ + "\n"@));
    }
    assert forall|sink: &mut CommandSink| #[trigger]
        call_ensures(CommandSink::get_server_time, (sink,), ()) implies final(sink)@ == (*sink)@
        + ("GTC\n"@) by {
        assert(final(sink)@ =~= (*sink)@ + ("GTC\n"@));
    }
    assert forall|sink: &mut CommandSink| #[trigger]
        call_ensures(CommandSink::quit, (sink,), ()) implies final(sink)@ == (*sink)@
        + ("QUIT\n"@) by {
        assert(final(sink)@ =~= (*sink)@ + ("QUIT\n"@));
    }
}

} // verus!
