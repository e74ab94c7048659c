//! What the reader and the watchdog do with what they see.
//!
//! The threads, the socket and the channel belong to whoever runs the session.
//! After each read [`reader_step`] says what to deliver, after each look at the
//! receive buffer [`watchdog_step`] says whether to worry.
use crate::protocol::frame;
use crate::protocol::frame::{FrameKind, FrameSplitter};
use crate::wire;
use bytes::Bytes;
use vstd::prelude::*;

verus! {

/// A frame as the parsers get it.
pub type Frame = (FrameKind, Bytes);

/// What a read came to.
#[derive(Debug, Clone, Copy, PartialEq, Eq, Structural)]
pub enum ReadOutcome {
    /// So many bytes; none at the end of the stream.
    Bytes(usize),
    /// A signal came in between.
    Interrupted,
    /// The read failed.
    Failed,
}

/// What the reader does next.
#[derive(Debug)]
pub enum ReaderStep {
    /// Ends: the stream is at its end, or broken.
    Stop,
    /// Reads again.
    Again,
    /// Delivers these frames in order, then reads again.
    Deliver(Vec<Frame>),
}

/// Takes in what a read brought to the front of `chunk`, and says what to do.
pub fn reader_step(splitter: &mut FrameSplitter, chunk: &[u8], outcome: ReadOutcome) -> (r:
    ReaderStep)
    requires
        outcome matches ReadOutcome::Bytes(n) ==> n <= chunk@.len() && old(splitter)@.len() + n
            <= isize::MAX,
    ensures
        match outcome {
            ReadOutcome::Bytes(n) if n > 0 => {
                let all = old(splitter)@ + chunk@.take(n as int);
                &&& r matches ReaderStep::Deliver(f)
                &&& f@.len() == frame::frames(all).len()
                &&& forall|i: int|
                    0 <= i < f@.len() ==> (f@[i].0, wire::content(#[trigger] f@[i].1))
                        == frame::frames(all)[i]
                &&& final(splitter)@ == frame::partial(all)
            },
            ReadOutcome::Interrupted => r is Again && final(splitter)@ == old(splitter)@,
            _ => r is Stop && final(splitter)@ == old(splitter)@,
        },
{
    match outcome {
        ReadOutcome::Bytes(n) => {
            if n == 0 {
                return ReaderStep::Stop;
            }
            let data = vstd::slice::slice_subrange(chunk, 0, n);
            assert(data@ =~= chunk@.take(n as int));
            splitter.extend_from_slice(data);
            ReaderStep::Deliver(splitter.drain())
        },
        ReadOutcome::Interrupted => ReaderStep::Again,
        ReadOutcome::Failed => ReaderStep::Stop,
    }
}

/// What came of offering a frame to a bounded channel.
#[derive(Debug, Clone, Copy, PartialEq, Eq, Structural)]
pub enum OfferOutcome {
    Accepted,
    Full,
    Disconnected,
}

/// What the reader does with a frame it offered.
#[derive(Debug, Clone, Copy, PartialEq, Eq, Structural)]
pub enum OfferStep {
    /// Goes on to the next frame.
    Next,
    /// Waits until there is room.
    Wait,
    /// Ends: no one takes frames any more.
    Stop,
}

/// What to do after a frame was offered. No frame is dropped while anyone takes
/// them.
pub fn offer_step(outcome: OfferOutcome) -> (r: OfferStep)
    ensures
        r == match outcome {
            OfferOutcome::Accepted => OfferStep::Next,
            OfferOutcome::Full => OfferStep::Wait,
            OfferOutcome::Disconnected => OfferStep::Stop,
        },
{
    match outcome {
        OfferOutcome::Accepted => OfferStep::Next,
        OfferOutcome::Full => OfferStep::Wait,
        OfferOutcome::Disconnected => OfferStep::Stop,
    }
}

/// What the watchdog does next.
#[derive(Debug, Clone, Copy, PartialEq, Eq, Structural)]
pub enum WatchdogStep {
    /// Nothing to worry about: looks again later.
    Calm,
    /// Warns, and looks again later.
    Warn,
    /// Asks for the session to end, and ends.
    Panic,
    /// Ends: the socket is gone.
    Stop,
}

/// What to do after a look at the receive buffer, where `pending` bytes wait;
/// `None` when it could not be looked at. A threshold is passed by more bytes
/// than it says.
pub fn watchdog_step(pending: Option<usize>, warn_bytes: usize, panic_bytes: usize) -> (r:
    WatchdogStep)
    ensures
        r == match pending {
            None => WatchdogStep::Stop,
            Some(n) => if n > panic_bytes {
                WatchdogStep::Panic
            } else if n > warn_bytes {
                WatchdogStep::Warn
            } else {
                WatchdogStep::Calm
            },
        },
{
    match pending {
        None => WatchdogStep::Stop,
        Some(n) => if n > panic_bytes {
            WatchdogStep::Panic
        } else if n > warn_bytes {
            WatchdogStep::Warn
        } else {
            WatchdogStep::Calm
        },
    }
}

/// The watchdog ends the session above the one mark, warns above the other, and
/// is calm up to both; without a reading it stops.
pub proof fn law_watchdog_marks(n: usize, warn_bytes: usize, panic_bytes: usize, r: WatchdogStep)
    ensures
        call_ensures(watchdog_step, (Some(n), warn_bytes, panic_bytes), r) ==> (r is Panic <==> n
            > panic_bytes) && (r is Warn <==> n > warn_bytes && n <= panic_bytes) && (r is Calm
            <==> n <= warn_bytes && n <= panic_bytes),
        call_ensures(watchdog_step, (None, warn_bytes, panic_bytes), r) ==> r is Stop,
{
}

/// An accepted frame is followed by the next, a full channel is waited for, and
/// one that is gone ends the reader.
pub proof fn law_offers_are_followed(outcome: OfferOutcome, r: OfferStep)
    requires
        call_ensures(offer_step, (outcome,), r),
    ensures
        r is Next <==> outcome is Accepted,
        r is Wait <==> outcome is Full,
        r is Stop <==> outcome is Disconnected,
{
}

/// What a read brings is put behind what waits, and every whole frame is
/// delivered in order; a read of nothing or a failure stops, and one that was
/// interrupted is tried again.
pub proof fn law_reads_are_delivered(chunk: &[u8], n: usize)
    requires
        0 < n <= chunk@.len(),
    ensures
        forall|s: &mut FrameSplitter, r: ReaderStep| #[trigger]
            call_ensures(reader_step, (s, chunk, ReadOutcome::Bytes(n)), r) ==> (r matches
                ReaderStep::Deliver(f) && f@.len() == frame::frames(
                (*s)@ + chunk@.take(n as int),
            ).len() && final(s)@ == frame::partial((*s)@ + chunk@.take(n as int)) && forall|i: int|
                0 <= i < f@.len() ==> (f@[i].0, wire::content(#[trigger] f@[i].1)) == frame::frames(
                    (*s)@ + chunk@.take(n as int),
                )[i]),
        forall|s: &mut FrameSplitter, r: ReaderStep| #[trigger]
            call_ensures(reader_step, (s, chunk, ReadOutcome::Bytes(0)), r) ==> r is Stop
                && final(s)@ == (*s)@,
        forall|s: &mut FrameSplitter, r: ReaderStep| #[trigger]
            call_ensures(reader_step, (s, chunk, ReadOutcome::Interrupted), r) ==> r is Again
                && final(s)@ == (*s)@,
{
}

} // verus!
