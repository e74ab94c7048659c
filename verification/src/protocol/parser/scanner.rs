//! Fields of a frame.
//!
//! A frame is a flat list of fields with `:` between them. [`Scanner`] hands
//! them out one by one as handles on the frame's own bytes. A last field that
//! may itself hold `:` (a news title) is taken with [`Scanner::take_rest`].
use crate::decimal;
use crate::decimal::Decimal;
use crate::protocol::parser::ParseError;
use crate::text;
use crate::wire;
use bytes::Bytes;
use vstd::prelude::*;
use vstd::utf8;

verus! {

/// The byte between two fields.
pub open spec fn colon() -> Set<u8> {
    set![':' as u8]
}

/// The fields of `s`: what stands between its colons. There is always at least
/// one, and a trailing colon is followed by an empty one.
pub open spec fn fields(s: Seq<u8>) -> Seq<Seq<u8>>
    decreases s.len(),
    via fields_decreases
{
    let n = wire::span(s, colon()) as int;
    if n < s.len() {
        seq![s.take(n)] + fields(s.skip(n + 1))
    } else {
        seq![s]
    }
}

#[via_fn]
proof fn fields_decreases(s: Seq<u8>) {
    wire::lemma_span(s, colon());
}

/// Fields put together again, with a colon between each two.
pub open spec fn join(f: Seq<Seq<u8>>) -> Seq<u8>
    decreases f.len(),
{
    if f.len() == 0 {
        Seq::empty()
    } else if f.len() == 1 {
        f[0]
    } else {
        f[0] + seq![':' as u8] + join(f.drop_first())
    }
}

/// Splitting loses nothing: joining the fields gives the frame back.
pub proof fn law_fields_are_lossless(s: Seq<u8>)
    ensures
        join(fields(s)) == s,
        fields(s).len() > 0,
    decreases s.len(),
{
    wire::lemma_span(s, colon());
    let n = wire::span(s, colon()) as int;
    if n < s.len() {
        let rest = s.skip(n + 1);
        law_fields_are_lossless(rest);
        assert(fields(s).drop_first() =~= fields(rest));
        assert(s =~= s.take(n) + seq![':' as u8] + rest);
    }
}

/// No field holds a colon.
pub proof fn law_fields_hold_no_colon(s: Seq<u8>, k: int, i: int)
    requires
        0 <= k < fields(s).len(),
        0 <= i < fields(s)[k].len(),
    ensures
        fields(s)[k][i] != ':' as u8,
    decreases s.len(),
{
    wire::lemma_span(s, colon());
    let n = wire::span(s, colon()) as int;
    if k == 0 {
        assert(fields(s)[0] == s.take(n) || fields(s)[0] == s);
        assert(!colon().contains(s[i]));
    } else {
        law_fields_hold_no_colon(s.skip(n + 1), k - 1, i);
    }
}

/// A frame is cut at its colons and nowhere else: what stands before the first
/// one is the first field, and what follows it is cut in the same way.
pub proof fn law_frames_are_cut_at_colons(a: Seq<u8>, b: Seq<u8>)
    requires
        !a.contains(58),
    ensures
        fields(a) == seq![a],
        fields(a + seq![58u8] + b) == seq![a] + fields(b),
{
    assert forall|j: int| 0 <= j < a.len() implies !colon().contains(#[trigger] a[j]) by {
        assert(a.contains(a[j]));
    }
    wire::lemma_span_none(a, colon());
    let s = a + seq![58u8] + b;
    assert forall|j: int| 0 <= j < a.len() implies !colon().contains(#[trigger] s[j]) by {
        assert(s[j] == a[j]);
    }
    assert(s[a.len() as int] == 58);
    wire::lemma_span_found(s, colon(), a.len() as int);
    assert(s.take(a.len() as int) =~= a);
    assert(s.skip(a.len() as int + 1) =~= b);
}

/// Fields are put together with one colon between each two.
pub proof fn law_joining_puts_colons_between(a: Seq<u8>, f: Seq<Seq<u8>>)
    ensures
        join(seq![a]) == a,
        f.len() > 0 ==> join(seq![a] + f) == a + seq![58u8] + join(f),
{
    assert((seq![a] + f).drop_first() =~= f);
}

/// Fields that are written into a frame are the fields that are read from it.
pub proof fn law_written_fields_are_read(f: Seq<Seq<u8>>)
    requires
        f.len() > 0,
        forall|i: int| 0 <= i < f.len() ==> !(#[trigger] f[i]).contains(58),
    ensures
        fields(join(f)) == f,
    decreases f.len(),
{
    let a = f[0];
    assert(!f[0].contains(58));
    if f.len() == 1 {
        law_frames_are_cut_at_colons(a, Seq::empty());
        assert(f =~= seq![a]);
    } else {
        let rest = f.drop_first();
        assert forall|i: int| 0 <= i < rest.len() implies !(#[trigger] rest[i]).contains(58) by {
            assert(rest[i] == f[i + 1]);
        }
        law_written_fields_are_read(rest);
        law_frames_are_cut_at_colons(a, join(rest));
        assert(f =~= seq![a] + rest);
    }
}

/// A frame has at most one field more than it has bytes.
proof fn lemma_fields_len(s: Seq<u8>)
    ensures
        1 <= fields(s).len() <= s.len() + 1,
    decreases s.len(),
{
    wire::lemma_span(s, colon());
    let n = wire::span(s, colon()) as int;
    if n < s.len() {
        lemma_fields_len(s.skip(n + 1));
    }
}

/// Hands out the fields of a frame in order.
#[derive(Debug, Clone)]
pub struct Scanner {
    buf: Bytes,
    /// Index of the next byte to read; one past the length when all is read.
    pos: usize,
    /// Number of fields handed out.
    field_index: usize,
}

impl Scanner {
    /// All fields of the frame.
    pub closed spec fn fields(&self) -> Seq<Seq<u8>> {
        fields(wire::content(self.buf))
    }

    /// How many fields are gone, handed out one by one or as part of a rest.
    pub closed spec fn taken(&self) -> nat {
        if self.pos > wire::content(self.buf).len() {
            self.fields().len()
        } else {
            self.field_index as nat
        }
    }

    /// How many fields were handed out one by one.
    pub closed spec fn consumed(&self) -> nat {
        self.field_index as nat
    }

    /// The scanner stands at the start of a field, or at the end.
    pub closed spec fn wf(&self) -> bool {
        let s = wire::content(self.buf);
        &&& self.field_index <= self.fields().len() <= s.len() + 1
        &&& self.pos <= s.len() ==> {
            &&& self.field_index < self.fields().len()
            &&& fields(s.skip(self.pos as int)) == self.fields().skip(self.field_index as int)
        }
        &&& self.pos <= s.len() + 1
    }

    /// A scanner at the start of `buf`.
    pub fn new(buf: Bytes) -> (r: Self)
        ensures
            r.wf(),
            r.fields() == fields(wire::content(buf)),
            r.taken() == 0,
            r.consumed() == 0,
    {
        proof {
            let s = wire::content(buf);
            lemma_fields_len(s);
            assert(s.skip(0) =~= s);
            assert(fields(s).skip(0) =~= fields(s));
        }
        Scanner { buf, pos: 0, field_index: 0 }
    }

    /// The next field, or `None` when there is none.
    pub fn next(&mut self) -> (r: Option<Bytes>)
        requires
            old(self).wf(),
        ensures
            final(self).wf(),
            final(self).fields() == old(self).fields(),
            match r {
                Some(b) => {
                    &&& old(self).taken() < old(self).fields().len()
                    &&& wire::content(b) == old(self).fields()[old(self).taken() as int]
                    &&& final(self).taken() == old(self).taken() + 1
                    &&& final(self).consumed() == old(self).consumed() + 1
                    &&& old(self).consumed() == old(self).taken()
                },
                None => {
                    &&& old(self).taken() == old(self).fields().len()
                    &&& final(self).taken() == old(self).taken()
                    &&& final(self).consumed() == old(self).consumed()
                    &&& old(self).consumed() <= isize::MAX + 1
                },
            },
    {
        let bytes = wire::as_slice(&self.buf);
        let len = bytes.len();
        if self.pos > len {
            return None;
        }
        let ghost s = wire::content(self.buf);
        let ghost rest = s.skip(self.pos as int);
        let ghost n = wire::span(rest, colon()) as int;
        let ghost k = self.field_index as int;
        proof {
            wire::lemma_span(rest, colon());
            assert(fields(rest)[0] == self.fields()[k]);
            if n < rest.len() {
                let after = s.skip(self.pos as int + n + 1);
                assert(rest.skip(n + 1) =~= after);
                assert(fields(rest).drop_first() =~= fields(after));
                assert(self.fields().skip(k + 1) =~= fields(rest).drop_first());
                lemma_fields_len(after);
            } else {
                assert(fields(rest).len() == 1);
            }
        }
        let tail = vstd::slice::slice_subrange(bytes, self.pos, len);
        assert(tail@ =~= rest);
        match memchr::memchr(':' as u8, tail) {
            Some(rel) => {
                proof {
                    wire::lemma_span_found(rest, colon(), rel as int);
                }
                let token = wire::slice(&self.buf, self.pos, self.pos + rel);
                assert(wire::content(token) =~= rest.take(n));
                self.pos = self.pos + rel + 1;
                self.field_index = self.field_index + 1;
                Some(token)
            },
            None => {
                proof {
                    wire::lemma_span_none(rest, colon());
                }
                let token = wire::slice(&self.buf, self.pos, len);
                assert(wire::content(token) =~= rest);
                self.pos = len + 1;
                self.field_index = self.field_index + 1;
                Some(token)
            },
        }
    }

    /// Number of fields handed out so far.
    pub fn fields_consumed(&self) -> (r: usize)
        ensures
            r == self.consumed(),
    {
        self.field_index
    }

    /// All bytes from the next field on, colons among them.
    pub fn rest(self) -> (r: Bytes)
        requires
            self.wf(),
        ensures
            wire::content(r) == join(self.fields().skip(self.taken() as int)),
    {
        let len = wire::as_slice(&self.buf).len();
        if self.pos > len {
            assert(self.fields().skip(self.taken() as int) =~= Seq::<Seq<u8>>::empty());
            Bytes::new()
        } else {
            proof {
                let s = wire::content(self.buf);
                law_fields_are_lossless(s.skip(self.pos as int));
                assert(s.subrange(self.pos as int, s.len() as int) =~= s.skip(self.pos as int));
            }
            wire::slice(&self.buf, self.pos, len)
        }
    }

    /// All bytes from the next field on, colons among them. Nothing is left
    /// for a later call.
    pub fn take_rest(&mut self) -> (r: Bytes)
        requires
            old(self).wf(),
        ensures
            final(self).wf(),
            final(self).fields() == old(self).fields(),
            wire::content(r) == join(old(self).fields().skip(old(self).taken() as int)),
            final(self).taken() == final(self).fields().len(),
            final(self).consumed() == old(self).consumed(),
    {
        let len = wire::as_slice(&self.buf).len();
        let out = if self.pos > len {
            assert(self.fields().skip(self.taken() as int) =~= Seq::<Seq<u8>>::empty());
            Bytes::new()
        } else {
            proof {
                let s = wire::content(self.buf);
                law_fields_are_lossless(s.skip(self.pos as int));
                assert(s.subrange(self.pos as int, s.len() as int) =~= s.skip(self.pos as int));
            }
            wire::slice(&self.buf, self.pos, len)
        };
        self.pos = len + 1;
        out
    }

    /// The next field, or an error that says which one is missing.
    pub fn required(&mut self, expected: &'static str) -> (r: Result<Bytes, ParseError>)
        requires
            old(self).wf(),
        ensures
            final(self).wf(),
            final(self).fields() == old(self).fields(),
            match r {
                Ok(b) => {
                    &&& old(self).taken() < old(self).fields().len()
                    &&& wire::content(b) == old(self).fields()[old(self).taken() as int]
                    &&& final(self).taken() == old(self).taken() + 1
                    &&& final(self).consumed() == old(self).consumed() + 1
                },
                Err(e) => {
                    &&& old(self).taken() == old(self).fields().len()
                    &&& final(self).taken() == old(self).taken()
                    &&& final(self).consumed() == old(self).consumed()
                    &&& e == (ParseError::MissingField {
                        position: (old(self).consumed() + 1) as usize,
                        expected,
                    })
                },
            },
    {
        match self.next() {
            Some(b) => Ok(b),
            None => Err(ParseError::MissingField { position: self.field_index + 1, expected }),
        }
    }

    /// The next field as an unsigned 64-bit integer.
    pub fn required_u64(&mut self, field: &'static str) -> (r: Result<u64, ParseError>)
        requires
            old(self).wf(),
            old(self).consumed() == old(self).taken(),
        ensures
            final(self).wf(),
            final(self).fields() == old(self).fields(),
            final(self).consumed() == final(self).taken(),
            match r {
                Ok(n) => u64_fault(old(self).fields(), old(self).taken(), field) is None && n
                    == text::number(old(self).fields()[old(self).taken() as int])
                    && final(self).taken() == old(self).taken() + 1,
                Err(e) => u64_fault(old(self).fields(), old(self).taken(), field) == Some(e),
            },
    {
        let bytes = self.required(field)?;
        parse_u64(wire::as_slice(&bytes), field)
    }

    /// The next field as an unsigned 32-bit integer.
    pub fn required_u32(&mut self, field: &'static str) -> (r: Result<u32, ParseError>)
        requires
            old(self).wf(),
            old(self).consumed() == old(self).taken(),
        ensures
            final(self).wf(),
            final(self).fields() == old(self).fields(),
            final(self).consumed() == final(self).taken(),
            match r {
                Ok(n) => u32_fault(old(self).fields(), old(self).taken(), field) is None && n
                    == text::number(old(self).fields()[old(self).taken() as int])
                    && final(self).taken() == old(self).taken() + 1,
                Err(e) => u32_fault(old(self).fields(), old(self).taken(), field) == Some(e),
            },
    {
        let bytes = self.required(field)?;
        parse_u32(wire::as_slice(&bytes), field)
    }

    /// The next field as a decimal number.
    pub fn required_decimal(&mut self, field: &'static str) -> (r: Result<Decimal, ParseError>)
        requires
            old(self).wf(),
            old(self).consumed() == old(self).taken(),
        ensures
            final(self).wf(),
            final(self).fields() == old(self).fields(),
            final(self).consumed() == final(self).taken(),
            match r {
                Ok(d) => decimal_fault(old(self).fields(), old(self).taken(), field) is None && d@
                    == old(self).fields()[old(self).taken() as int] && final(self).taken() == old(
                    self,
                ).taken() + 1,
                Err(e) => decimal_fault(old(self).fields(), old(self).taken(), field) == Some(e),
            },
    {
        let bytes = self.required(field)?;
        parse_decimal(&bytes, field)
    }
}

/// What is wrong with a frame: `first`, or else `second`.
pub open spec fn or_else(first: Option<ParseError>, second: Option<ParseError>) -> Option<
    ParseError,
> {
    if first is Some {
        first
    } else {
        second
    }
}

/// The fault of a frame that may end before field `k`, counted from zero.
pub open spec fn missing(f: Seq<Seq<u8>>, k: nat, expected: &'static str) -> Option<ParseError> {
    if k < f.len() {
        None
    } else {
        Some(ParseError::MissingField { position: (f.len() + 1) as usize, expected })
    }
}

/// `s` spells an integer from zero to `max`.
pub open spec fn is_unsigned(s: Seq<u8>, max: nat) -> bool {
    s.len() > 0 && text::all_digits(s) && text::number(s) <= max
}

/// `s` without a leading minus.
pub open spec fn magnitude(s: Seq<u8>) -> Seq<u8> {
    if s.len() > 0 && s[0] == '-' as u8 {
        s.drop_first()
    } else {
        s
    }
}

/// The integer that digits with an optional leading minus spell.
pub open spec fn signed_number(s: Seq<u8>) -> int {
    if s.len() > 0 && s[0] == '-' as u8 {
        -(text::number(magnitude(s)) as int)
    } else {
        text::number(s) as int
    }
}

/// What is wrong with a token where an integer up to `max` belongs.
pub open spec fn bad_unsigned(s: Seq<u8>, max: nat, field: &'static str) -> Option<ParseError> {
    if is_unsigned(s, max) {
        None
    } else {
        Some(ParseError::BadInteger { field })
    }
}

/// What is wrong with a token where a decimal number belongs.
pub open spec fn bad_decimal(s: Seq<u8>, field: &'static str) -> Option<ParseError> {
    if s.len() == 0 {
        Some(ParseError::BadFloat { field })
    } else if !utf8::valid_utf8(s) {
        Some(ParseError::BadEncoding { field })
    } else if !decimal::is_float(s) {
        Some(ParseError::BadFloat { field })
    } else {
        None
    }
}

/// The fault of a frame whose field `k` is to be an unsigned 64-bit integer.
pub open spec fn u64_fault(f: Seq<Seq<u8>>, k: nat, field: &'static str) -> Option<ParseError> {
    or_else(missing(f, k, field), bad_unsigned(f[k as int], u64::MAX as nat, field))
}

/// The fault of a frame whose field `k` is to be an unsigned 32-bit integer.
pub open spec fn u32_fault(f: Seq<Seq<u8>>, k: nat, field: &'static str) -> Option<ParseError> {
    or_else(missing(f, k, field), bad_unsigned(f[k as int], u32::MAX as nat, field))
}

/// The fault of a frame whose field `k` is to be a decimal number.
pub open spec fn decimal_fault(f: Seq<Seq<u8>>, k: nat, field: &'static str) -> Option<ParseError> {
    or_else(missing(f, k, field), bad_decimal(f[k as int], field))
}

/// `b` as an unsigned 64-bit integer: digits only, at least one.
pub fn parse_u64(b: &[u8], field: &'static str) -> (r: Result<u64, ParseError>)
    ensures
        match r {
            Ok(n) => is_unsigned(b@, u64::MAX as nat) && n == text::number(b@),
            Err(e) => bad_unsigned(b@, u64::MAX as nat, field) == Some(e),
        },
{
    if b.len() == 0 {
        return Err(ParseError::BadInteger { field });
    }
    match text::digits_up_to(b, u64::MAX) {
        Some(n) => Ok(n),
        None => Err(ParseError::BadInteger { field }),
    }
}

/// `b` as an unsigned 32-bit integer.
pub fn parse_u32(b: &[u8], field: &'static str) -> (r: Result<u32, ParseError>)
    ensures
        match r {
            Ok(n) => is_unsigned(b@, u32::MAX as nat) && n == text::number(b@),
            Err(e) => bad_unsigned(b@, u32::MAX as nat, field) == Some(e),
        },
{
    let n = parse_u64(b, field)?;
    if n > u32::MAX as u64 {
        return Err(ParseError::BadInteger { field });
    }
    Ok(n as u32)
}

/// `b` as an unsigned 16-bit integer.
pub fn parse_u16(b: &[u8], field: &'static str) -> (r: Result<u16, ParseError>)
    ensures
        match r {
            Ok(n) => is_unsigned(b@, u16::MAX as nat) && n == text::number(b@),
            Err(e) => bad_unsigned(b@, u16::MAX as nat, field) == Some(e),
        },
{
    let n = parse_u64(b, field)?;
    if n > u16::MAX as u64 {
        return Err(ParseError::BadInteger { field });
    }
    Ok(n as u16)
}

/// What is wrong with a token where a signed 64-bit integer belongs. The
/// magnitude is at most that of the largest positive one.
pub open spec fn bad_i64(s: Seq<u8>, field: &'static str) -> Option<ParseError> {
    if is_unsigned(magnitude(s), i64::MAX as nat) {
        None
    } else {
        Some(ParseError::BadInteger { field })
    }
}

/// `b` as a signed 64-bit integer: an optional minus, then digits.
pub fn parse_i64(b: &[u8], field: &'static str) -> (r: Result<i64, ParseError>)
    ensures
        match r {
            Ok(n) => bad_i64(b@, field) is None && n == signed_number(b@),
            Err(e) => bad_i64(b@, field) == Some(e),
        },
{
    if b.len() == 0 {
        return Err(ParseError::BadInteger { field });
    }
    let negative: bool = b[0] == '-' as u8;
    let rest = if negative {
        vstd::slice::slice_subrange(b, 1, b.len())
    } else {
        b
    };
    assert(rest@ =~= magnitude(b@));
    if rest.len() == 0 {
        return Err(ParseError::BadInteger { field });
    }
    match text::digits_up_to(rest, i64::MAX as u64) {
        Some(n) => {
            let value: i64 = n as i64;
            if negative {
                Ok(-value)
            } else {
                Ok(value)
            }
        },
        None => Err(ParseError::BadInteger { field }),
    }
}

/// `b` as a decimal number.
pub fn parse_decimal(b: &Bytes, field: &'static str) -> (r: Result<Decimal, ParseError>)
    ensures
        match r {
            Ok(d) => bad_decimal(wire::content(*b), field) is None && d@ == wire::content(*b),
            Err(e) => bad_decimal(wire::content(*b), field) == Some(e),
        },
{
    let bytes = wire::as_slice(b);
    if bytes.len() == 0 {
        return Err(ParseError::BadFloat { field });
    }
    if text::to_str(bytes).is_none() {
        return Err(ParseError::BadEncoding { field });
    }
    match Decimal::new(b.clone()) {
        Some(d) => Ok(d),
        None => Err(ParseError::BadFloat { field }),
    }
}

/// Digits within the range of the type are read as the number that they spell,
/// and all else is refused under the name of its field.
pub proof fn law_digits_are_parsed(
    b: &[u8],
    field: &'static str,
    r64: Result<u64, ParseError>,
    r32: Result<u32, ParseError>,
    r16: Result<u16, ParseError>,
)
    requires
        call_ensures(parse_u64, (b, field), r64),
        call_ensures(parse_u32, (b, field), r32),
        call_ensures(parse_u16, (b, field), r16),
    ensures
        r64 is Ok <==> b@.len() > 0 && (forall|i: int|
            0 <= i < b@.len() ==> 48 <= #[trigger] b@[i] <= 57) && text::number(b@)
            <= 18446744073709551615,
        r32 is Ok <==> b@.len() > 0 && (forall|i: int|
            0 <= i < b@.len() ==> 48 <= #[trigger] b@[i] <= 57) && text::number(b@) <= 4294967295,
        r16 is Ok <==> b@.len() > 0 && (forall|i: int|
            0 <= i < b@.len() ==> 48 <= #[trigger] b@[i] <= 57) && text::number(b@) <= 65535,
        r64 matches Ok(n) ==> n == text::number(b@),
        r32 matches Ok(n) ==> n == text::number(b@),
        r16 matches Ok(n) ==> n == text::number(b@),
        r64 matches Err(e) ==> e == (ParseError::BadInteger { field }),
        r32 matches Err(e) ==> e == (ParseError::BadInteger { field }),
        r16 matches Err(e) ==> e == (ParseError::BadInteger { field }),
{
    if text::all_digits(b@) {
        assert forall|i: int| 0 <= i < b@.len() implies 48 <= #[trigger] b@[i] <= 57 by {
            assert(text::is_digit(b@[i]));
        }
    }
}

/// A minus in front of digits makes the number negative; without one it is what
/// the digits spell.
pub proof fn law_signed_digits_are_parsed(
    b: &[u8],
    digits: Seq<u8>,
    field: &'static str,
    r: Result<i64, ParseError>,
)
    requires
        digits.len() > 0,
        forall|i: int| 0 <= i < digits.len() ==> 48 <= #[trigger] digits[i] <= 57,
        b@ == digits || b@ == seq![45u8] + digits,
        call_ensures(parse_i64, (b, field), r),
    ensures
        r is Ok <==> text::number(digits) <= i64::MAX,
        r matches Ok(n) ==> n == if b@ == digits {
            text::number(digits) as int
        } else {
            -(text::number(digits) as int)
        },
        r matches Err(e) ==> e == (ParseError::BadInteger { field }),
{
    assert(digits[0] != 45);
    assert((seq![45u8] + digits).drop_first() =~= digits);
    assert((seq![45u8] + digits)[0] == 45);
    assert(text::all_digits(digits));
}

/// A literal is kept as it is. Nothing, and what is no literal, is refused as no
/// number, and what is no text as that.
pub proof fn law_literals_are_parsed(b: Bytes, field: &'static str, r: Result<Decimal, ParseError>)
    requires
        call_ensures(parse_decimal, (&b, field), r),
    ensures
        r is Ok <==> wire::content(b).len() > 0 && utf8::valid_utf8(wire::content(b))
            && decimal::is_float(wire::content(b)),
        r matches Ok(d) ==> d@ == wire::content(b),
        wire::content(b).len() > 0 && !utf8::valid_utf8(wire::content(b)) ==> r == Err::<
            Decimal,
            ParseError,
        >(ParseError::BadEncoding { field }),
        r is Err && (wire::content(b).len() == 0 || utf8::valid_utf8(wire::content(b))) ==> r
            == Err::<Decimal, ParseError>(ParseError::BadFloat { field }),
{
}

/// A scanner hands out the fields of its frame one by one, in order, and counts
/// them.
pub proof fn law_fields_are_handed_out_in_order()
    ensures
        forall|s: &mut Scanner, r: Option<Bytes>| #[trigger]
            call_ensures(Scanner::next, (s,), r) ==> {
                &&& r is Some <==> (*s).taken() < (*s).fields().len()
                &&& r matches Some(b) ==> wire::content(b) == (*s).fields()[(*s).taken() as int]
                    && final(s).taken() == (*s).taken() + 1 && final(s).consumed()
                    == (*s).consumed() + 1
                &&& final(s).fields() == (*s).fields()
            },
        forall|buf: Bytes, s: Scanner| #[trigger]
            call_ensures(Scanner::new, (buf,), s) ==> s.fields() == fields(wire::content(buf))
                && s.taken() == 0 && s.consumed() == 0,
{
}

} // verus!
