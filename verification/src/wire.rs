//! Byte buffers shared with the socket layer.
//!
//! Frames and tokens are [`bytes::Bytes`] handles: slices that share one
//! allocation. The verified code reads them only through the items below, and
//! every contract speaks of the bytes that a handle shows, [`content`].
use bytes::{Buf, Bytes, BytesMut};
use vstd::prelude::*;

verus! {

/// The shared, immutable byte handle of the `bytes` crate.
#[verifier::external_type_specification]
#[verifier::external_body]
pub struct ExBytes(bytes::Bytes);

/// The growable byte buffer of the `bytes` crate.
#[verifier::external_type_specification]
#[verifier::external_body]
pub struct ExBytesMut(bytes::BytesMut);

/// The bytes that a handle shows, in order.
pub uninterp spec fn content(b: Bytes) -> Seq<u8>;

/// The bytes that a buffer holds, in order.
pub uninterp spec fn buffered(b: BytesMut) -> Seq<u8>;

/// `Bytes::as_ref`: the slice behind the handle. No slice of bytes is longer
/// than `isize::MAX`.
#[verifier::external_body]
pub(crate) fn as_slice(b: &Bytes) -> (r: &[u8])
    ensures
        r@ == content(*b),
        r@.len() <= isize::MAX,
{
    b.as_ref()
}

/// `Bytes::slice`: a handle on part of what `b` shows.
#[verifier::external_body]
pub(crate) fn slice(b: &Bytes, from: usize, to: usize) -> (r: Bytes)
    requires
        from <= to <= content(*b).len(),
    ensures
        content(r) == content(*b).subrange(from as int, to as int),
{
    b.slice(from..to)
}

/// `Bytes::clone`: a second handle on the same bytes.
pub assume_specification[ <bytes::Bytes as Clone>::clone ](b: &Bytes) -> (r: Bytes)
    ensures
        content(r) == content(*b),
;

/// `Bytes::new`: a handle that shows nothing.
pub assume_specification[ bytes::Bytes::new ]() -> (r: Bytes)
    ensures
        content(r) == Seq::<u8>::empty(),
;

/// `Bytes::from_static`: a handle on a static slice.
pub assume_specification[ bytes::Bytes::from_static ](bytes: &'static [u8]) -> (r: Bytes)
    ensures
        content(r) == bytes@,
;

/// `Bytes::copy_from_slice`: a handle on a copy.
pub assume_specification[ bytes::Bytes::copy_from_slice ](data: &[u8]) -> (r: Bytes)
    ensures
        content(r) == data@,
;

/// `BytesMut::with_capacity`: an empty buffer. An allocation is never larger
/// than `isize::MAX`, and the call panics on a larger request. How much room the
/// buffer has is up to the allocator and not said.
pub assume_specification[ bytes::BytesMut::with_capacity ](capacity: usize) -> (r: BytesMut)
    requires
        capacity <= isize::MAX,
    ensures
        buffered(r) == Seq::<u8>::empty(),
;

/// `BytesMut::len`: how many bytes the buffer holds.
pub assume_specification[ bytes::BytesMut::len ](b: &BytesMut) -> (r: usize)
    ensures
        r == buffered(*b).len(),
;

/// `BytesMut::reserve`: makes room and leaves the bytes alone. No allocation is
/// larger than `isize::MAX`, and the call panics on a larger request. What the
/// buffer holds in reserve, which its bytes do not show, counts towards that
/// size, so where memory is all but used up a smaller request may fail too. How
/// much room the buffer has is up to the allocator and not said.
pub assume_specification[ bytes::BytesMut::reserve ](b: &mut BytesMut, additional: usize)
    requires
        buffered(*old(b)).len() + additional <= isize::MAX,
    ensures
        buffered(*final(b)) == buffered(*old(b)),
;

/// `BytesMut::extend_from_slice`: appends. It makes room as `reserve` does, and
/// fails where that does.
pub assume_specification[ bytes::BytesMut::extend_from_slice ](b: &mut BytesMut, extend: &[u8])
    requires
        buffered(*old(b)).len() + extend@.len() <= isize::MAX,
    ensures
        buffered(*final(b)) == buffered(*old(b)) + extend@,
;

/// `BytesMut::split_to`: takes the first `at` bytes off the front.
pub assume_specification[ bytes::BytesMut::split_to ](b: &mut BytesMut, at: usize) -> (r: BytesMut)
    requires
        at <= buffered(*old(b)).len(),
    ensures
        buffered(r) == buffered(*old(b)).take(at as int),
        buffered(*final(b)) == buffered(*old(b)).skip(at as int),
;

/// `BytesMut::truncate`: keeps the first `len` bytes; no effect on a shorter
/// buffer.
pub assume_specification[ bytes::BytesMut::truncate ](b: &mut BytesMut, len: usize)
    ensures
        len <= buffered(*old(b)).len() ==> buffered(*final(b)) == buffered(*old(b)).take(
            len as int,
        ),
        len > buffered(*old(b)).len() ==> buffered(*final(b)) == buffered(*old(b)),
;

/// `BytesMut::freeze`: the buffer as an immutable handle.
pub assume_specification[ bytes::BytesMut::freeze ](b: BytesMut) -> (r: Bytes)
    ensures
        content(r) == buffered(b),
;

/// `Buf::advance` on a buffer: drops the first `cnt` bytes.
#[verifier::external_body]
pub(crate) fn advance(b: &mut BytesMut, cnt: usize)
    requires
        cnt <= buffered(*old(b)).len(),
    ensures
        buffered(*final(b)) == buffered(*old(b)).skip(cnt as int),
{
    b.advance(cnt)
}

/// `BytesMut::as_ref`: the slice behind the buffer.
#[verifier::external_body]
pub(crate) fn buffer_slice(b: &BytesMut) -> (r: &[u8])
    ensures
        r@ == buffered(*b),
        r@.len() <= isize::MAX,
{
    b.as_ref()
}

/// How many bytes stand at the front of `s` before the first one in `stops`;
/// all of them when none is in `stops`.
pub open spec fn span(s: Seq<u8>, stops: Set<u8>) -> nat
    decreases s.len(),
{
    if s.len() == 0 || stops.contains(s[0]) {
        0
    } else {
        1 + span(s.drop_first(), stops)
    }
}

/// `memchr::memchr`: the index of the first `needle`.
pub assume_specification[ memchr::memchr ](needle: u8, haystack: &[u8]) -> (r: Option<usize>)
    ensures
        match r {
            Some(i) => i < haystack@.len() && haystack@[i as int] == needle && forall|j: int|
                0 <= j < i ==> haystack@[j] != needle,
            None => forall|j: int| 0 <= j < haystack@.len() ==> haystack@[j] != needle,
        },
;

/// `memchr::memchr2`: the index of the first byte that is either needle.
pub assume_specification[ memchr::memchr2 ](
    needle1: u8,
    needle2: u8,
    haystack: &[u8],
) -> (r: Option<usize>)
    ensures
        match r {
            Some(i) => i < haystack@.len() && (haystack@[i as int] == needle1
                || haystack@[i as int] == needle2) && forall|j: int|
                0 <= j < i ==> haystack@[j] != needle1 && haystack@[j] != needle2,
            None => forall|j: int|
                0 <= j < haystack@.len() ==> haystack@[j] != needle1 && haystack@[j] != needle2,
        },
;

/// `memchr::memmem::find`: the index of the first occurrence of `needle`.
pub assume_specification[ memchr::memmem::find ](haystack: &[u8], needle: &[u8]) -> (r: Option<
    usize,
>)
    ensures
        match r {
            Some(i) => occurs_at(haystack@, needle@, i as int) && forall|j: int|
                0 <= j < i ==> !occurs_at(haystack@, needle@, j),
            None => forall|j: int| !occurs_at(haystack@, needle@, j),
        },
;

/// `needle` stands in `haystack` at index `i`.
pub open spec fn occurs_at(haystack: Seq<u8>, needle: Seq<u8>, i: int) -> bool {
    0 <= i <= haystack.len() - needle.len() && haystack.subrange(i, i + needle.len()) == needle
}

/// A byte in `stops`, with none before it, ends the span.
pub proof fn lemma_span_found(s: Seq<u8>, stops: Set<u8>, i: int)
    requires
        0 <= i < s.len(),
        stops.contains(s[i]),
        forall|j: int| 0 <= j < i ==> !stops.contains(#[trigger] s[j]),
    ensures
        span(s, stops) == i,
    decreases i,
{
    if i > 0 {
        assert(!stops.contains(s[0]));
        assert forall|j: int| 0 <= j < i - 1 implies !stops.contains(
            #[trigger] s.drop_first()[j],
        ) by {
            assert(s.drop_first()[j] == s[j + 1]);
        }
        lemma_span_found(s.drop_first(), stops, i - 1);
    }
}

/// Without a byte in `stops` the span is the whole.
pub proof fn lemma_span_none(s: Seq<u8>, stops: Set<u8>)
    requires
        forall|j: int| 0 <= j < s.len() ==> !stops.contains(#[trigger] s[j]),
    ensures
        span(s, stops) == s.len(),
    decreases s.len(),
{
    if s.len() > 0 {
        assert(!stops.contains(s[0]));
        assert forall|j: int| 0 <= j < s.drop_first().len() implies !stops.contains(
            #[trigger] s.drop_first()[j],
        ) by {
            assert(s.drop_first()[j] == s[j + 1]);
        }
        lemma_span_none(s.drop_first(), stops);
    }
}

/// What a span is: no stop inside it, and a stop behind it unless it is all.
pub proof fn lemma_span(s: Seq<u8>, stops: Set<u8>)
    ensures
        span(s, stops) <= s.len(),
        span(s, stops) < s.len() ==> stops.contains(s[span(s, stops) as int]),
        forall|j: int| 0 <= j < span(s, stops) ==> !stops.contains(#[trigger] s[j]),
    decreases s.len(),
{
    if s.len() > 0 && !stops.contains(s[0]) {
        let t = s.drop_first();
        lemma_span(t, stops);
        assert forall|j: int| 0 <= j < span(s, stops) implies !stops.contains(
            #[trigger] s[j],
        ) by {
            if j > 0 {
                assert(t[j - 1] == s[j]);
            }
        }
    }
}

/// Bytes put behind a stop do not move it; behind a span that is all, the
/// search goes on in them.
pub proof fn lemma_span_append(a: Seq<u8>, b: Seq<u8>, stops: Set<u8>)
    ensures
        span(a, stops) < a.len() ==> span(a + b, stops) == span(a, stops),
        span(a, stops) == a.len() ==> span(a + b, stops) == a.len() + span(b, stops),
    decreases a.len(),
{
    if a.len() == 0 {
        assert(a + b =~= b);
    } else if !stops.contains(a[0]) {
        assert((a + b).drop_first() =~= a.drop_first() + b);
        lemma_span_append(a.drop_first(), b, stops);
    }
}

/// Bytes occur where they are put, and nowhere but where they stand one by one.
pub proof fn law_occurrences(a: Seq<u8>, needle: Seq<u8>, b: Seq<u8>, i: int, k: int)
    requires
        0 <= k < needle.len(),
    ensures
        occurs_at(a + needle + b, needle, a.len() as int),
        occurs_at(a, needle, i) ==> 0 <= i && i + needle.len() <= a.len() && a[i + k] == needle[k],
{
    assert((a + needle + b).subrange(a.len() as int, a.len() as int + needle.len()) =~= needle);
    if occurs_at(a, needle, i) {
        assert(a.subrange(i, i + needle.len())[k] == a[i + k]);
    }
}

} // verus!
