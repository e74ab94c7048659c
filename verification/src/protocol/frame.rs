//! Framing: a raw byte stream cut into discrete protocol frames.
//!
//! The feed uses two terminators. `!` ends every quote frame, `\n` ends every
//! other one. Both are 7-bit ASCII and never stand inside a frame, so a frame
//! is what lies before the first of them.
use crate::wire;
use bytes::{Bytes, BytesMut};
use vstd::prelude::*;

verus! {

/// Which terminator ended a frame.
#[derive(Debug, Clone, Copy, PartialEq, Eq, Hash, Structural)]
pub enum FrameKind {
    /// Ended by `!`: a quote.
    Bang,
    /// Ended by `\n`: everything else.
    Newline,
}

/// The two terminators.
pub open spec fn terminators() -> Set<u8> {
    set!['\n' as u8, '!' as u8]
}

/// The kind of a frame that ends in the terminator `b`.
pub open spec fn kind_of(b: u8) -> FrameKind {
    if b == '!' as u8 {
        FrameKind::Bang
    } else {
        FrameKind::Newline
    }
}

/// The length of the first frame of `s`, its terminator left out; all of `s`
/// when no frame is complete.
pub open spec fn frame_end(s: Seq<u8>) -> nat {
    wire::span(s, terminators())
}

/// `s` holds a complete frame.
pub open spec fn has_frame(s: Seq<u8>) -> bool {
    frame_end(s) < s.len()
}

/// The first frame of `s`.
pub open spec fn first_frame(s: Seq<u8>) -> (FrameKind, Seq<u8>) {
    (kind_of(s[frame_end(s) as int]), s.take(frame_end(s) as int))
}

/// What follows the first frame of `s` and its terminator.
pub open spec fn after_frame(s: Seq<u8>) -> Seq<u8> {
    s.skip(frame_end(s) as int + 1)
}

/// All complete frames of `s`, in order.
pub open spec fn frames(s: Seq<u8>) -> Seq<(FrameKind, Seq<u8>)>
    decreases s.len(),
{
    if has_frame(s) {
        seq![first_frame(s)] + frames(after_frame(s))
    } else {
        Seq::empty()
    }
}

/// The incomplete frame at the end of `s`.
pub open spec fn partial(s: Seq<u8>) -> Seq<u8>
    decreases s.len(),
{
    if has_frame(s) {
        partial(after_frame(s))
    } else {
        s
    }
}

/// The byte that ends a frame of kind `k`.
pub open spec fn terminator(k: FrameKind) -> u8 {
    match k {
        FrameKind::Bang => '!' as u8,
        FrameKind::Newline => '\n' as u8,
    }
}

/// Frames put back on the wire, each behind the other with its terminator.
pub open spec fn unframed(fs: Seq<(FrameKind, Seq<u8>)>) -> Seq<u8>
    decreases fs.len(),
{
    if fs.len() == 0 {
        Seq::empty()
    } else {
        fs[0].1 + seq![terminator(fs[0].0)] + unframed(fs.drop_first())
    }
}

/// Streaming frame splitter that owns a growing read buffer.
///
/// Append what the socket delivered, then take frames until none is left:
/// bytes of an incomplete frame wait for the next read.
#[derive(Debug)]
pub struct FrameSplitter {
    buf: BytesMut,
}

impl View for FrameSplitter {
    type V = Seq<u8>;

    /// The unread bytes.
    closed spec fn view(&self) -> Seq<u8> {
        wire::buffered(self.buf)
    }
}

impl FrameSplitter {
    /// An empty splitter whose buffer has room for `cap` bytes.
    #[must_use]
    pub fn with_capacity(cap: usize) -> (r: Self)
        requires
            cap <= isize::MAX,
        ensures
            r@ == Seq::<u8>::empty(),
    {
        FrameSplitter { buf: BytesMut::with_capacity(cap) }
    }

    /// Makes room for at least `additional` further bytes.
    pub fn reserve(&mut self, additional: usize)
        requires
            old(self)@.len() + additional <= isize::MAX,
        ensures
            final(self)@ == old(self)@,
    {
        self.buf.reserve(additional);
    }

    /// Appends bytes received from the socket.
    pub fn extend_from_slice(&mut self, src: &[u8])
        requires
            old(self)@.len() + src@.len() <= isize::MAX,
        ensures
            final(self)@ == old(self)@ + src@,
    {
        self.buf.extend_from_slice(src);
    }

    /// How many unread bytes are buffered.
    pub fn pending(&self) -> (r: usize)
        ensures
            r == self@.len(),
    {
        self.buf.len()
    }

    /// Takes one frame off the front of the buffer; its terminator is dropped.
    /// `None`, and nothing changes, while no frame is complete.
    pub fn next_frame(&mut self) -> (r: Option<(FrameKind, Bytes)>)
        ensures
            match r {
                Some((kind, frame)) => {
                    &&& has_frame(old(self)@)
                    &&& (kind, wire::content(frame)) == first_frame(old(self)@)
                    &&& final(self)@ == after_frame(old(self)@)
                },
                None => !has_frame(old(self)@) && final(self)@ == old(self)@,
            },
    {
        let ghost s = self@;
        let view: &[u8] = wire::buffer_slice(&self.buf);
        let found: Option<usize> = memchr::memchr2('\n' as u8, '!' as u8, view);
        let idx: usize = match found {
            None => {
                proof {
                    wire::lemma_span_none(s, terminators());
                }
                return None;
            },
            Some(idx) => idx,
        };
        let kind = if view[idx] == '!' as u8 {
            FrameKind::Bang
        } else {
            FrameKind::Newline
        };
        proof {
            wire::lemma_span_found(s, terminators(), idx as int);
        }
        let mut frame = self.buf.split_to(idx + 1);
        frame.truncate(idx);
        assert(s.take(idx + 1).take(idx as int) =~= s.take(idx as int));
        Some((kind, frame.freeze()))
    }

    /// Takes every complete frame off the buffer, in order.
    pub fn drain(&mut self) -> (r: Vec<(FrameKind, Bytes)>)
        ensures
            r@.len() == frames(old(self)@).len(),
            forall|i: int|
                0 <= i < r@.len() ==> (r@[i].0, wire::content(#[trigger] r@[i].1)) == frames(
                    old(self)@,
                )[i],
            final(self)@ == partial(old(self)@),
    {
        let ghost start = self@;
        let mut out: Vec<(FrameKind, Bytes)> = Vec::new();
        loop
            invariant
                start == old(self)@,
                frames(start).len() == out@.len() + frames(self@).len(),
                forall|i: int|
                    0 <= i < out@.len() ==> (out@[i].0, wire::content(#[trigger] out@[i].1))
                        == frames(start)[i],
                frames(start).skip(out@.len() as int) == frames(self@),
                partial(start) == partial(self@),
            decreases self@.len(),
        {
            let ghost before = self@;
            let ghost n = out@.len() as int;
            match self.next_frame() {
                None => {
                    return out;
                },
                Some((kind, frame)) => {
                    proof {
                        let all = frames(start);
                        assert(frames(before) == seq![first_frame(before)] + frames(
                            after_frame(before),
                        ));
                        assert(all.skip(n)[0] == first_frame(before));
                        assert(all.skip(n).skip(1) =~= frames(after_frame(before)));
                        assert(all.skip(n + 1) =~= all.skip(n).skip(1));
                    }
                    out.push((kind, frame));
                },
            }
        }
    }

    /// Discards the first `n` bytes: a known prefix such as a banner.
    pub fn advance(&mut self, n: usize)
        requires
            n <= old(self)@.len(),
        ensures
            final(self)@ == old(self)@.skip(n as int),
    {
        wire::advance(&mut self.buf, n);
    }
}

impl Default for FrameSplitter {
    /// A splitter with room for eight mebibytes.
    fn default() -> (r: Self)
        ensures
            r@ == Seq::<u8>::empty(),
    {
        FrameSplitter::with_capacity(8 * 1024 * 1024)
    }
}

/// It does not matter how the socket cuts the stream: reading `a` and then `b`
/// gives the frames of `a + b`, and leaves the same incomplete frame.
pub proof fn law_chunks_do_not_matter(a: Seq<u8>, b: Seq<u8>)
    ensures
        frames(a + b) == frames(a) + frames(partial(a) + b),
        partial(a + b) == partial(partial(a) + b),
    decreases a.len(),
{
    wire::lemma_span_append(a, b, terminators());
    wire::lemma_span(a, terminators());
    if has_frame(a) {
        let e = frame_end(a) as int;
        assert((a + b).take(e) =~= a.take(e));
        assert((a + b)[e] == a[e]);
        assert(after_frame(a + b) =~= after_frame(a) + b);
        law_chunks_do_not_matter(after_frame(a), b);
        let head = seq![first_frame(a)];
        assert(head + (frames(after_frame(a)) + frames(partial(a) + b)) =~= (head + frames(
            after_frame(a),
        )) + frames(partial(a) + b));
    } else {
        assert(frames(a) + frames(a + b) =~= frames(a + b));
    }
}

/// Framing loses nothing: the frames with their terminators, and the
/// incomplete frame behind them, are the stream.
pub proof fn law_framing_is_lossless(s: Seq<u8>)
    ensures
        unframed(frames(s)) + partial(s) == s,
    decreases s.len(),
{
    wire::lemma_span(s, terminators());
    if has_frame(s) {
        let e = frame_end(s) as int;
        law_framing_is_lossless(after_frame(s));
        let rest = frames(after_frame(s));
        assert(frames(s).drop_first() =~= rest);
        assert(frames(s)[0] == first_frame(s));
        assert(terminator(kind_of(s[e])) == s[e]);
        assert(unframed(frames(s)) + partial(s) =~= s.take(e) + seq![s[e]] + (unframed(rest)
            + partial(after_frame(s))));
        assert(s.take(e) + seq![s[e]] + s.skip(e + 1) =~= s);
    } else {
        assert(unframed(frames(s)) + partial(s) =~= s);
    }
}

/// The bytes of reads, one behind the other.
pub open spec fn joined(chunks: Seq<Seq<u8>>) -> Seq<u8>
    decreases chunks.len(),
{
    if chunks.len() == 0 {
        Seq::empty()
    } else {
        chunks[0] + joined(chunks.drop_first())
    }
}

/// What comes of reads: the frames, when after each read all complete ones are
/// taken, and the incomplete frame that is left. Before the first read `unread`
/// is buffered.
pub open spec fn fed(unread: Seq<u8>, chunks: Seq<Seq<u8>>) -> (Seq<(FrameKind, Seq<u8>)>, Seq<u8>)
    decreases chunks.len(),
{
    if chunks.len() == 0 {
        (Seq::empty(), unread)
    } else {
        let all = unread + chunks[0];
        let (later, left) = fed(partial(all), chunks.drop_first());
        (frames(all) + later, left)
    }
}

/// However a stream is cut into reads, the same frames come out, in the same
/// order, and the same incomplete frame is left; together they are the stream.
pub proof fn law_every_cut_gives_the_same_frames(chunks: Seq<Seq<u8>>)
    ensures
        fed(Seq::empty(), chunks) == (frames(joined(chunks)), partial(joined(chunks))),
        unframed(fed(Seq::empty(), chunks).0) + fed(Seq::empty(), chunks).1 == joined(chunks),
{
    wire::lemma_span(Seq::<u8>::empty(), terminators());
    lemma_fed(Seq::empty(), chunks);
    assert(Seq::<u8>::empty() + joined(chunks) =~= joined(chunks));
    law_framing_is_lossless(joined(chunks));
}

proof fn lemma_fed(unread: Seq<u8>, chunks: Seq<Seq<u8>>)
    requires
        !has_frame(unread),
    ensures
        fed(unread, chunks) == (
            frames(unread + joined(chunks)),
            partial(unread + joined(chunks)),
        ),
    decreases chunks.len(),
{
    if chunks.len() == 0 {
        assert(unread + joined(chunks) =~= unread);
    } else {
        let all = unread + chunks[0];
        let later = joined(chunks.drop_first());
        assert(unread + joined(chunks) =~= all + later);
        law_chunks_do_not_matter(all, later);
        lemma_partial_is_incomplete(all);
        lemma_fed(partial(all), chunks.drop_first());
    }
}

proof fn lemma_partial_is_incomplete(s: Seq<u8>)
    ensures
        !has_frame(partial(s)),
    decreases s.len(),
{
    wire::lemma_span(s, terminators());
    if has_frame(s) {
        lemma_partial_is_incomplete(after_frame(s));
    }
}

/// No frame, complete or not, holds a terminator.
pub proof fn law_frames_hold_no_terminator(s: Seq<u8>)
    ensures
        forall|i: int, j: int|
            #![trigger frames(s)[i].1[j]]
            0 <= i < frames(s).len() && 0 <= j < frames(s)[i].1.len() ==> !terminators().contains(
                frames(s)[i].1[j],
            ),
        forall|j: int| 0 <= j < partial(s).len() ==> !terminators().contains(#[trigger] partial(s)[j]),
    decreases s.len(),
{
    wire::lemma_span(s, terminators());
    if has_frame(s) {
        let rest = frames(after_frame(s));
        law_frames_hold_no_terminator(after_frame(s));
        assert forall|i: int, j: int|
            #![trigger frames(s)[i].1[j]]
            0 <= i < frames(s).len() && 0 <= j < frames(s)[i].1.len() implies !terminators().contains(
            frames(s)[i].1[j],
        ) by {
            if i == 0 {
                assert(frames(s)[0].1[j] == s[j]);
            } else {
                assert(frames(s)[i] == rest[i - 1]);
                assert(!terminators().contains(rest[i - 1].1[j]));
            }
        }
        assert(partial(s) == partial(after_frame(s)));
    } else {
        assert(partial(s) == s);
    }
}

/// A frame ends at the first newline or `!`, which tells its kind. What stands
/// before it is the frame, and what follows it is cut in the same way. Without
/// either there is no frame.
pub proof fn law_frame_ends_at_the_first_terminator(a: Seq<u8>, end: u8, b: Seq<u8>)
    requires
        !a.contains(10) && !a.contains(33),
        end == 10 || end == 33,
    ensures
        has_frame(a + seq![end] + b),
        first_frame(a + seq![end] + b).1 == a,
        end == 33 ==> first_frame(a + seq![end] + b).0 == FrameKind::Bang,
        end == 10 ==> first_frame(a + seq![end] + b).0 == FrameKind::Newline,
        after_frame(a + seq![end] + b) == b,
        frames(a + seq![end] + b) == seq![first_frame(a + seq![end] + b)] + frames(b),
        partial(a + seq![end] + b) == partial(b),
        !has_frame(a),
        frames(a).len() == 0,
        partial(a) == a,
{
    assert forall|j: int| 0 <= j < a.len() implies !terminators().contains(#[trigger] a[j]) by {
        assert(a.contains(a[j]));
    }
    wire::lemma_span_none(a, terminators());
    let s = a + seq![end] + b;
    assert forall|j: int| 0 <= j < a.len() implies !terminators().contains(#[trigger] s[j]) by {
        assert(s[j] == a[j]);
    }
    assert(s[a.len() as int] == end);
    wire::lemma_span_found(s, terminators(), a.len() as int);
    assert(s.take(a.len() as int) =~= a);
    assert(s.skip(a.len() as int + 1) =~= b);
}

/// Taking a frame gives what stands before the first terminator and leaves what
/// follows it; feeding puts bytes behind those that wait.
pub proof fn law_splitter_takes_frames(a: Seq<u8>, end: u8, b: Seq<u8>, src: &[u8])
    requires
        !a.contains(10) && !a.contains(33),
        end == 10 || end == 33,
    ensures
        forall|s: &mut FrameSplitter, r: Option<(FrameKind, Bytes)>|
            (*s)@ == a + seq![end] + b && #[trigger] call_ensures(
                FrameSplitter::next_frame,
                (s,),
                r,
            ) ==> (r matches Some((kind, frame)) && wire::content(frame) == a && (kind
                == FrameKind::Bang <==> end == 33) && final(s)@ == b),
        forall|s: &mut FrameSplitter, r: Option<(FrameKind, Bytes)>|
            (*s)@ == a && #[trigger] call_ensures(FrameSplitter::next_frame, (s,), r) ==> r is None
                && final(s)@ == a,
        forall|s: &mut FrameSplitter| #[trigger]
            call_ensures(FrameSplitter::extend_from_slice, (s, src), ()) ==> final(s)@ == (*s)@
                + src@,
{
    law_frame_ends_at_the_first_terminator(a, end, b);
}

} // verus!
