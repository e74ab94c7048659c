//! The handshake that opens a session.
//!
//! The server greets, asks for the user name and for the password, and then
//! says that the client is connected. The client answers the greeting with its
//! software key (an empty line where there is none) and each prompt with what it
//! asks for. Prompts are found wherever they stand in what the server sends,
//! and several may arrive at once: what follows a prompt is kept for the next.
//!
//! [`Handshake`] decides; whoever owns the socket does what
//! [`Handshake::next_action`] says and reports back.
use crate::client::config::ConnectionConfig;
use crate::client::error::{ClientError, HandshakeStep};
use crate::text;
use crate::time::Nanos;
use crate::wire;
use vstd::prelude::*;

verus! {

/// What the client waits for.
#[derive(Debug, Clone, Copy, PartialEq, Eq, Structural)]
pub enum Stage {
    Welcome,
    Username,
    Password,
    Connected,
    Done,
}

/// What to do next.
#[derive(Debug, PartialEq, Eq)]
pub enum HandshakeAction {
    /// Write these bytes.
    Write { step: HandshakeStep, line: Vec<u8> },
    /// Read more, unless time is up.
    Read { step: HandshakeStep },
    /// The session is open.
    Done,
}

/// The words that end the wait of a stage.
pub open spec fn prompt(stage: Stage) -> &'static str {
    match stage {
        Stage::Welcome => "Welcome to Cedro",
        Stage::Username => "Username:",
        Stage::Password => "Password:",
        Stage::Connected => "You are connected",
        Stage::Done => "",
    }
}

/// The stage after one.
pub open spec fn following(stage: Stage) -> Stage {
    match stage {
        Stage::Welcome => Stage::Username,
        Stage::Username => Stage::Password,
        Stage::Password => Stage::Connected,
        Stage::Connected => Stage::Done,
        Stage::Done => Stage::Done,
    }
}

/// The step that a stage's wait is.
pub open spec fn await_step(stage: Stage) -> HandshakeStep {
    match stage {
        Stage::Welcome => HandshakeStep::AwaitWelcome,
        Stage::Username => HandshakeStep::AwaitUsernamePrompt,
        Stage::Password => HandshakeStep::AwaitPasswordPrompt,
        _ => HandshakeStep::AwaitConnected,
    }
}

/// The step that answers a stage's prompt.
pub open spec fn send_step(stage: Stage) -> HandshakeStep {
    match stage {
        Stage::Welcome => HandshakeStep::SendSoftwareKey,
        Stage::Username => HandshakeStep::SendUsername,
        _ => HandshakeStep::SendPassword,
    }
}

/// `needle` stands in `s` at `i`, and nowhere before.
pub open spec fn first_at(s: Seq<u8>, needle: Seq<u8>, i: int) -> bool {
    wire::occurs_at(s, needle, i) && forall|j: int|
        0 <= j < i ==> !#[trigger] wire::occurs_at(s, needle, j)
}

/// What follows the first `needle` in `s`.
pub open spec fn after(s: Seq<u8>, needle: Seq<u8>) -> Option<Seq<u8>> {
    if exists|i: int| first_at(s, needle, i) {
        let i = choose|i: int| first_at(s, needle, i);
        Some(s.skip(i + needle.len()))
    } else {
        None
    }
}

/// A credential as it goes over the wire.
pub open spec fn wire_line(credential: Seq<char>) -> Seq<u8> {
    vstd::utf8::encode_utf8(credential) + seq![13u8, 10u8]
}

/// Stages of one handshake, with the credentials of a configuration.
#[derive(Debug)]
pub struct Handshake {
    software_key: String,
    username: String,
    password: String,
    stage: Stage,
    buf: Vec<u8>,
}

impl Handshake {
    /// What the client waits for.
    pub closed spec fn stage(&self) -> Stage {
        self.stage
    }

    /// What the server sent and no prompt has used up.
    pub closed spec fn unread(&self) -> Seq<u8> {
        self.buf@
    }

    /// The answer to a stage's prompt, as text.
    pub closed spec fn answer(&self, stage: Stage) -> Seq<char> {
        match stage {
            Stage::Welcome => self.software_key@,
            Stage::Username => self.username@,
            _ => self.password@,
        }
    }

    /// A handshake that has not begun.
    pub fn new(config: &ConnectionConfig) -> (r: Self)
        ensures
            r.stage() == Stage::Welcome,
            r.unread() == Seq::<u8>::empty(),
            r.answer(Stage::Welcome) == config.software_key@,
            r.answer(Stage::Username) == config.username@,
            r.answer(Stage::Password) == config.password@,
    {
        Handshake {
            software_key: config.software_key.clone(),
            username: config.username.clone(),
            password: config.password.clone(),
            stage: Stage::Welcome,
            buf: Vec::new(),
        }
    }

    /// Takes in what the server sent.
    pub fn feed(&mut self, data: &[u8])
        ensures
            final(self).unread() == old(self).unread() + data@,
            final(self).stage() == old(self).stage(),
            forall|s: Stage| final(self).answer(s) == old(self).answer(s),
    {
        text::append_bytes(&mut self.buf, data);
    }

    /// Takes in what a read brought to the front of `chunk`. A read of nothing
    /// means that the server has hung up.
    pub fn received(&mut self, chunk: &[u8], n: usize) -> (r: Result<(), ClientError>)
        requires
            n <= chunk@.len(),
        ensures
            final(self).stage() == old(self).stage(),
            forall|s: Stage| final(self).answer(s) == old(self).answer(s),
            if n == 0 {
                &&& r == Err::<(), ClientError>(ClientError::UnexpectedEof)
                &&& final(self).unread() == old(self).unread()
            } else {
                &&& r == Ok::<(), ClientError>(())
                &&& final(self).unread() == old(self).unread() + chunk@.take(n as int)
            },
    {
        if n == 0 {
            return Err(ClientError::UnexpectedEof);
        }
        let data = vstd::slice::slice_subrange(chunk, 0, n);
        assert(data@ =~= chunk@.take(n as int));
        self.feed(data);
        Ok(())
    }

    /// What to do next. A prompt that has arrived is used up, and its answer is
    /// to be written; else more is to be read.
    pub fn next_action(&mut self) -> (r: HandshakeAction)
        ensures
            forall|s: Stage| final(self).answer(s) == old(self).answer(s),
            if old(self).stage() == Stage::Done {
                &&& r is Done
                &&& final(self).stage() == Stage::Done
                &&& final(self).unread() == old(self).unread()
            } else {
                match after(old(self).unread(), text::bytes_of(prompt(old(self).stage()))) {
                    Some(rest) => {
                        &&& final(self).stage() == following(old(self).stage())
                        &&& final(self).unread() == rest
                        &&& if old(self).stage() == Stage::Connected {
                            r is Done
                        } else {
                            r matches HandshakeAction::Write { step, line } && step == send_step(
                                old(self).stage(),
                            ) && line@ == wire_line(old(self).answer(old(self).stage()))
                        }
                    },
                    None => {
                        &&& final(self).stage() == old(self).stage()
                        &&& final(self).unread() == old(self).unread()
                        &&& r == (HandshakeAction::Read { step: await_step(old(self).stage()) })
                    },
                }
            },
    {
        let words: &str = match self.stage {
            Stage::Welcome => "Welcome to Cedro",
            Stage::Username => "Username:",
            Stage::Password => "Password:",
            Stage::Connected => "You are connected",
            Stage::Done => {
                return HandshakeAction::Done;
            },
        };
        if !self.consume(words) {
            return HandshakeAction::Read { step: self.awaiting() };
        }
        match self.stage {
            Stage::Welcome => {
                self.stage = Stage::Username;
                HandshakeAction::Write {
                    step: HandshakeStep::SendSoftwareKey,
                    line: crlf_line(&self.software_key),
                }
            },
            Stage::Username => {
                self.stage = Stage::Password;
                HandshakeAction::Write {
                    step: HandshakeStep::SendUsername,
                    line: crlf_line(&self.username),
                }
            },
            Stage::Password => {
                self.stage = Stage::Connected;
                HandshakeAction::Write {
                    step: HandshakeStep::SendPassword,
                    line: crlf_line(&self.password),
                }
            },
            _ => {
                self.stage = Stage::Done;
                HandshakeAction::Done
            },
        }
    }

    /// Drops everything up to and including the first `words`, if they are
    /// there. Returns whether they were.
    fn consume(&mut self, words: &str) -> (r: bool)
        ensures
            final(self).stage() == old(self).stage(),
            forall|s: Stage| final(self).answer(s) == old(self).answer(s),
            match after(old(self).unread(), text::bytes_of(words)) {
                Some(rest) => r && final(self).unread() == rest,
                None => !r && final(self).unread() == old(self).unread(),
            },
    {
        let needle = words.as_bytes();
        match memchr::memmem::find(self.buf.as_slice(), needle) {
            Some(pos) => {
                proof {
                    lemma_after(self.buf@, needle@, pos as int);
                    assert(self.buf.len() == self.buf@.len());
                }
                let rest: Vec<u8> = self.buf.split_off(pos + needle.len());
                assert(rest@ =~= old(self).buf@.skip(pos + needle@.len()));
                self.buf = rest;
                true
            },
            None => {
                assert(forall|i: int| !first_at(self.buf@, needle@, i));
                false
            },
        }
    }

    /// The step that the client waits at.
    pub fn awaiting(&self) -> (r: HandshakeStep)
        ensures
            r == await_step(self.stage()),
    {
        match self.stage {
            Stage::Welcome => HandshakeStep::AwaitWelcome,
            Stage::Username => HandshakeStep::AwaitUsernamePrompt,
            Stage::Password => HandshakeStep::AwaitPasswordPrompt,
            _ => HandshakeStep::AwaitConnected,
        }
    }

    /// Whether a step may go on after so long a wait. Its time is up as soon as
    /// the timeout has passed.
    pub fn check_wait(&self, waited: Nanos, timeout: Nanos) -> (r: Result<(), ClientError>)
        ensures
            r == if waited >= timeout {
                Err::<(), ClientError>(
                    ClientError::HandshakeTimeout { step: await_step(self.stage()), waited },
                )
            } else {
                Ok(())
            },
    {
        if waited >= timeout {
            Err(ClientError::HandshakeTimeout { step: self.awaiting(), waited })
        } else {
            Ok(())
        }
    }

    /// What the server sent beyond the last prompt that was used up. Once the
    /// session is open, the stream of frames begins with it.
    pub fn into_unread(self) -> (r: Vec<u8>)
        ensures
            r@ == self.unread(),
    {
        self.buf
    }
}

/// A credential as it goes over the wire.
fn crlf_line(credential: &String) -> (r: Vec<u8>)
    ensures
        r@ == wire_line(credential@),
{
    let mut out: Vec<u8> = Vec::new();
    text::append_bytes(&mut out, credential.as_str().as_bytes());
    out.push(13);
    out.push(10);
    assert(out@ =~= wire_line(credential@));
    out
}

/// How an input or output failed, as far as messages tell it.
#[derive(Debug, Clone, Copy, PartialEq, Eq, Structural)]
pub enum IoFailure {
    TimedOut,
    WouldBlock,
    ConnectionReset,
    ConnectionAborted,
    UnexpectedEof,
    Other,
}

/// What a failure is called in messages.
pub open spec fn reason_text(f: IoFailure) -> &'static str {
    match f {
        IoFailure::TimedOut => "read/write timed out",
        IoFailure::WouldBlock => "non-blocking I/O reported WouldBlock",
        IoFailure::ConnectionReset => "connection reset by peer",
        IoFailure::ConnectionAborted => "connection aborted by peer",
        IoFailure::UnexpectedEof => "unexpected EOF",
        IoFailure::Other => "I/O failure (see source)",
    }
}

/// The kind of failure that an error holds.
pub uninterp spec fn failure(err: std::io::Error) -> IoFailure;

/// How an input or output failed. Wraps `std::io::Error::kind`: the five kinds
/// that messages tell apart, and all others.
#[verifier::external_body]
fn classify(err: &std::io::Error) -> (r: IoFailure)
    ensures
        r == failure(*err),
{
    match err.kind() {
        std::io::ErrorKind::TimedOut => IoFailure::TimedOut,
        std::io::ErrorKind::WouldBlock => IoFailure::WouldBlock,
        std::io::ErrorKind::ConnectionReset => IoFailure::ConnectionReset,
        std::io::ErrorKind::ConnectionAborted => IoFailure::ConnectionAborted,
        std::io::ErrorKind::UnexpectedEof => IoFailure::UnexpectedEof,
        _ => IoFailure::Other,
    }
}

/// What a failure is called in messages.
pub fn reason_of(f: IoFailure) -> (r: &'static str)
    ensures
        r == reason_text(f),
{
    match f {
        IoFailure::TimedOut => "read/write timed out",
        IoFailure::WouldBlock => "non-blocking I/O reported WouldBlock",
        IoFailure::ConnectionReset => "connection reset by peer",
        IoFailure::ConnectionAborted => "connection aborted by peer",
        IoFailure::UnexpectedEof => "unexpected EOF",
        IoFailure::Other => "I/O failure (see source)",
    }
}

/// What an error is called in messages.
pub fn handshake_reason(err: &std::io::Error) -> (r: &'static str)
    ensures
        r == reason_text(failure(*err)),
{
    reason_of(classify(err))
}

/// The error when reading or writing failed at a step.
pub fn step_failed(step: HandshakeStep, err: &std::io::Error) -> (r: ClientError)
    ensures
        r == (ClientError::Handshake { step, reason: reason_text(failure(*err)) }),
{
    ClientError::Handshake { step, reason: handshake_reason(err) }
}

proof fn lemma_after(s: Seq<u8>, needle: Seq<u8>, i: int)
    requires
        first_at(s, needle, i),
    ensures
        after(s, needle) == Some(s.skip(i + needle.len())),
{
    let k = choose|k: int| first_at(s, needle, k);
    assert(first_at(s, needle, k));
    if k < i {
        assert(!wire::occurs_at(s, needle, k));
    }
    if i < k {
        assert(!wire::occurs_at(s, needle, i));
    }
}

/// What follows a prompt does not depend on what comes later.
proof fn lemma_after_append(a: Seq<u8>, b: Seq<u8>, needle: Seq<u8>)
    requires
        after(a, needle) is Some,
    ensures
        after(a + b, needle) == Some(after(a, needle)->0 + b),
{
    let i = choose|i: int| first_at(a, needle, i);
    let s = a + b;
    assert(s.subrange(i, i + needle.len()) =~= a.subrange(i, i + needle.len()));
    assert forall|j: int| 0 <= j < i implies !#[trigger] wire::occurs_at(s, needle, j) by {
        assert(s.subrange(j, j + needle.len()) =~= a.subrange(j, j + needle.len()));
        assert(!wire::occurs_at(a, needle, j));
    }
    lemma_after(s, needle, i);
    assert(s.skip(i + needle.len()) =~= a.skip(i + needle.len()) + b);
}

/// How many stages lie ahead.
pub open spec fn stages_left(stage: Stage) -> nat {
    match stage {
        Stage::Welcome => 4,
        Stage::Username => 3,
        Stage::Password => 2,
        Stage::Connected => 1,
        Stage::Done => 0,
    }
}

/// Where a handshake stands after the server sent `s`: the stages whose prompts
/// were answered, in order, the stage it waits at, and what is unread.
pub open spec fn progress(stage: Stage, s: Seq<u8>) -> (Seq<Stage>, Stage, Seq<u8>)
    decreases stages_left(stage),
{
    if stage == Stage::Done {
        (Seq::empty(), stage, s)
    } else {
        match after(s, text::bytes_of(prompt(stage))) {
            Some(rest) => {
                let (answered, end, unread) = progress(following(stage), rest);
                (seq![stage] + answered, end, unread)
            },
            None => (Seq::empty(), stage, s),
        }
    }
}

/// How the server's bytes are cut into reads does not matter: going on with `b`
/// from where `a` has led ends where both at once do, with the same answers.
pub proof fn law_chunks_do_not_matter(stage: Stage, a: Seq<u8>, b: Seq<u8>)
    ensures
        ({
            let (first, middle, unread) = progress(stage, a);
            let (second, end, rest) = progress(middle, unread + b);
            progress(stage, a + b) == (first + second, end, rest)
        }),
    decreases stages_left(stage),
{
    let (first, middle, unread) = progress(stage, a);
    let (second, end, rest) = progress(middle, unread + b);
    if stage == Stage::Done {
        assert(first + second =~= second);
    } else {
        match after(a, text::bytes_of(prompt(stage))) {
            Some(left) => {
                lemma_after_append(a, b, text::bytes_of(prompt(stage)));
                law_chunks_do_not_matter(following(stage), left, b);
                let (f2, m2, u2) = progress(following(stage), left);
                let (s2, e2, r2) = progress(m2, u2 + b);
                assert(first == seq![stage] + f2);
                assert(seq![stage] + (f2 + s2) =~= first + second);
            },
            None => {
                assert(first + second =~= second);
            },
        }
    }
}

/// The prompts are answered in order, software key, user name, password, and
/// the session is open only after all three.
pub proof fn law_credentials_in_order(s: Seq<u8>)
    ensures
        ({
            let (answered, end, unread) = progress(Stage::Welcome, s);
            let all = seq![Stage::Welcome, Stage::Username, Stage::Password, Stage::Connected];
            answered == all.take(answered.len() as int) && (end == Stage::Done <==> answered.len()
                == 4)
        }),
{
    reveal_with_fuel(progress, 6);
    let (answered, end, unread) = progress(Stage::Welcome, s);
    let all = seq![Stage::Welcome, Stage::Username, Stage::Password, Stage::Connected];
    assert(answered =~= all.take(answered.len() as int));
}

/// Which prompt is waited for at each stage, what answers it, and what comes
/// next.
pub proof fn law_stages_of_the_handshake()
    ensures
        prompt(Stage::Welcome) == "Welcome to Cedro",
        prompt(Stage::Username) == "Username:",
        prompt(Stage::Password) == "Password:",
        prompt(Stage::Connected) == "You are connected",
        following(Stage::Welcome) == Stage::Username,
        following(Stage::Username) == Stage::Password,
        following(Stage::Password) == Stage::Connected,
        following(Stage::Connected) == Stage::Done,
        await_step(Stage::Welcome) == HandshakeStep::AwaitWelcome,
        await_step(Stage::Username) == HandshakeStep::AwaitUsernamePrompt,
        await_step(Stage::Password) == HandshakeStep::AwaitPasswordPrompt,
        await_step(Stage::Connected) == HandshakeStep::AwaitConnected,
        send_step(Stage::Welcome) == HandshakeStep::SendSoftwareKey,
        send_step(Stage::Username) == HandshakeStep::SendUsername,
        send_step(Stage::Password) == HandshakeStep::SendPassword,
{
}

/// An answer is a credential with a carriage return and a newline behind it.
pub proof fn law_answers_end_in_a_line_break(credential: Seq<char>)
    ensures
        wire_line(credential) == vstd::utf8::encode_utf8(credential).push(13).push(10),
{
    assert(wire_line(credential) =~= vstd::utf8::encode_utf8(credential).push(13).push(10));
}

/// A prompt uses up all that came before it, and itself, where it occurs first.
/// What follows it is left; without it nothing is used up.
pub proof fn law_prompt_is_used_up(s: Seq<u8>, needle: Seq<u8>, i: int)
    requires
        0 <= i <= s.len() - needle.len(),
        forall|j: int| 0 <= j < i ==> !#[trigger] wire::occurs_at(s, needle, j),
    ensures
        s.subrange(i, i + needle.len()) == needle ==> after(s, needle) == Some(
            s.skip(i + needle.len()),
        ),
        i == s.len() - needle.len() && s.subrange(i, i + needle.len()) != needle ==> after(
            s,
            needle,
        ) is None,
{
    if s.subrange(i, i + needle.len()) == needle {
        assert(wire::occurs_at(s, needle, i));
        lemma_after(s, needle, i);
    }
    if i == s.len() - needle.len() && s.subrange(i, i + needle.len()) != needle {
        assert forall|k: int| !first_at(s, needle, k) by {
            if wire::occurs_at(s, needle, k) {
                assert(k < i || k == i);
            }
        }
    }
}

/// How failures are worded.
pub proof fn law_failures_are_worded()
    ensures
        reason_text(IoFailure::TimedOut) == "read/write timed out",
        reason_text(IoFailure::WouldBlock) == "non-blocking I/O reported WouldBlock",
        reason_text(IoFailure::ConnectionReset) == "connection reset by peer",
        reason_text(IoFailure::ConnectionAborted) == "connection aborted by peer",
        reason_text(IoFailure::UnexpectedEof) == "unexpected EOF",
        reason_text(IoFailure::Other) == "I/O failure (see source)",
{
}

/// The credentials answer the prompts that ask for them: the software key the
/// welcome, the name the first prompt and the password the second.
pub proof fn law_prompts_are_answered(rest: Seq<u8>)
    ensures
        forall|h: &mut Handshake, r: HandshakeAction|
            (*h).stage() == Stage::Welcome && after(
                (*h).unread(),
                text::bytes_of("Welcome to Cedro"),
            ) == Some(rest) && #[trigger] call_ensures(Handshake::next_action, (h,), r) ==> (
            r matches HandshakeAction::Write { step, line } && step
                == HandshakeStep::SendSoftwareKey && line@ == vstd::utf8::encode_utf8(
                (*h).answer(Stage::Welcome),
            ) + seq![13u8, 10] && final(h).stage() == Stage::Username && final(h).unread() == rest),
        forall|h: &mut Handshake, r: HandshakeAction|
            (*h).stage() == Stage::Username && after((*h).unread(), text::bytes_of("Username:"))
                == Some(rest) && #[trigger] call_ensures(Handshake::next_action, (h,), r) ==> (
            r matches HandshakeAction::Write { step, line } && step == HandshakeStep::SendUsername
                && line@ == vstd::utf8::encode_utf8((*h).answer(Stage::Username)) + seq![13u8, 10]
                && final(h).stage() == Stage::Password && final(h).unread() == rest),
        forall|h: &mut Handshake, r: HandshakeAction|
            (*h).stage() == Stage::Password && after((*h).unread(), text::bytes_of("Password:"))
                == Some(rest) && #[trigger] call_ensures(Handshake::next_action, (h,), r) ==> (
            r matches HandshakeAction::Write { step, line } && step == HandshakeStep::SendPassword
                && line@ == vstd::utf8::encode_utf8((*h).answer(Stage::Password)) + seq![13u8, 10]
                && final(h).stage() == Stage::Connected && final(h).unread() == rest),
        forall|h: &mut Handshake, r: HandshakeAction|
            (*h).stage() == Stage::Connected && after(
                (*h).unread(),
                text::bytes_of("You are connected"),
            ) == Some(rest) && #[trigger] call_ensures(Handshake::next_action, (h,), r) ==> r is Done
                && final(h).stage() == Stage::Done && final(h).unread() == rest,
{
}

/// A handshake begins at the welcome with the credentials of its configuration,
/// each for its own prompt.
pub proof fn law_handshake_begins(config: ConnectionConfig, h: Handshake)
    requires
        call_ensures(Handshake::new, (&config,), h),
    ensures
        h.stage() == Stage::Welcome,
        h.unread().len() == 0,
        h.answer(Stage::Welcome) == config.software_key@,
        h.answer(Stage::Username) == config.username@,
        h.answer(Stage::Password) == config.password@,
{
}

/// A step may be waited for as long as its time is not up.
pub proof fn law_waiting_has_an_end(
    h: Handshake,
    waited: Nanos,
    timeout: Nanos,
    r: Result<(), ClientError>,
)
    requires
        call_ensures(Handshake::check_wait, (&h, waited, timeout), r),
    ensures
        r is Ok <==> waited < timeout,
        waited >= timeout && h.stage() == Stage::Username ==> r == Err::<(), ClientError>(
            ClientError::HandshakeTimeout { step: HandshakeStep::AwaitUsernamePrompt, waited },
        ),
{
}

} // verus!
