//! Decimal numbers as the feed writes them.
//!
//! Prices and volumes arrive as text such as `59.95` or `-1.5e3`. The library
//! checks that the text is a number and hands it on unchanged: no precision is
//! lost, and whoever computes with it picks the representation.
use crate::double;
use crate::double::{Large, Measure};
use crate::text;
use crate::wire;
use bytes::Bytes;
use vstd::prelude::*;
use vstd::utf8;

verus! {

/// Every byte that is not an ASCII digit.
pub open spec fn non_digits() -> Set<u8> {
    Set::new(|b: u8| !text::is_digit(b))
}

/// An exponent: `e` or `E`, an optional sign, and digits.
pub open spec fn is_exponent(s: Seq<u8>) -> bool {
    s.len() > 0 && text::lower(s[0]) == 'e' as u8 && {
        let digits = text::unsigned(s.drop_first());
        digits.len() > 0 && text::all_digits(digits)
    }
}

/// What may follow the digits: nothing, or an exponent.
pub open spec fn is_tail(s: Seq<u8>) -> bool {
    s.len() == 0 || is_exponent(s)
}

/// Digits with at most one point among them, at least one digit, and an
/// optional exponent.
pub open spec fn is_plain_number(s: Seq<u8>) -> bool {
    let whole = wire::span(s, non_digits());
    let rest = s.skip(whole as int);
    if rest.len() > 0 && rest[0] == '.' as u8 {
        let part = wire::span(rest.skip(1), non_digits());
        whole + part > 0 && is_tail(rest.skip(1).skip(part as int))
    } else {
        whole > 0 && is_tail(rest)
    }
}

/// A floating-point literal: an optional sign, then a number or one of `inf`,
/// `infinity` and `nan` in any case.
pub open spec fn is_float(s: Seq<u8>) -> bool {
    let t = text::unsigned(s);
    ||| text::same_but_case(t, text::bytes_of("inf"))
    ||| text::same_but_case(t, text::bytes_of("infinity"))
    ||| text::same_but_case(t, text::bytes_of("nan"))
    ||| is_plain_number(t)
}

/// The length of the run of digits at the front of `b`.
fn digit_run(b: &[u8]) -> (r: usize)
    ensures
        r == wire::span(b@, non_digits()),
        r <= b@.len(),
{
    let mut i: usize = 0;
    while i < b.len()
        invariant
            i <= b@.len(),
            forall|j: int| 0 <= j < i ==> !non_digits().contains(#[trigger] b@[j]),
        decreases b@.len() - i,
    {
        if !(b[i] >= '0' as u8 && b[i] <= '9' as u8) {
            proof {
                wire::lemma_span_found(b@, non_digits(), i as int);
            }
            return i;
        }
        i += 1;
    }
    proof {
        wire::lemma_span_none(b@, non_digits());
    }
    i
}

/// `b` without a leading sign.
fn without_sign(b: &[u8]) -> (r: &[u8])
    ensures
        r@ == text::unsigned(b@),
{
    if b.len() > 0 && (b[0] == '+' as u8 || b[0] == '-' as u8) {
        let r = text::from_index(b, 1);
        assert(r@ =~= b@.drop_first());
        r
    } else {
        b
    }
}

/// Nothing, or an exponent.
fn tail_ok(b: &[u8]) -> (r: bool)
    ensures
        r == is_tail(b@),
{
    if b.len() == 0 {
        return true;
    }
    if text::to_lower(b[0]) != 'e' as u8 {
        return false;
    }
    let after = text::from_index(b, 1);
    assert(after@ =~= b@.drop_first());
    let digits = without_sign(after);
    let run = digit_run(digits);
    proof {
        wire::lemma_span(digits@, non_digits());
        if run == digits@.len() {
            assert forall|i: int| 0 <= i < digits@.len() implies text::is_digit(
                #[trigger] digits@[i],
            ) by {
                assert(!non_digits().contains(digits@[i]));
            }
        } else {
            assert(non_digits().contains(digits@[run as int]));
        }
    }
    digits.len() > 0 && run == digits.len()
}

/// Digits with at most one point among them, at least one digit, and an
/// optional exponent.
fn plain_number_ok(b: &[u8]) -> (r: bool)
    ensures
        r == is_plain_number(b@),
{
    let whole = digit_run(b);
    let rest = text::from_index(b, whole);
    if rest.len() > 0 && rest[0] == '.' as u8 {
        let after = text::from_index(rest, 1);
        let part = digit_run(after);
        (whole > 0 || part > 0) && tail_ok(text::from_index(after, part))
    } else {
        whole > 0 && tail_ok(rest)
    }
}

/// Whether `b` is a floating-point literal.
pub(crate) fn float_ok(b: &[u8]) -> (r: bool)
    ensures
        r == is_float(b@),
{
    let t = without_sign(b);
    text::eq_but_case(t, "inf".as_bytes()) || text::eq_but_case(t, "infinity".as_bytes())
        || text::eq_but_case(t, "nan".as_bytes()) || plain_number_ok(t)
}

/// The digits of a number without sign, the point left out.
pub open spec fn digits(t: Seq<u8>) -> Seq<u8> {
    let whole = wire::span(t, non_digits()) as int;
    let rest = t.skip(whole);
    if rest.len() > 0 && rest[0] == '.' as u8 {
        let part = wire::span(rest.skip(1), non_digits()) as int;
        t.take(whole) + rest.skip(1).take(part)
    } else {
        t.take(whole)
    }
}

/// What follows the digits of a number without sign: nothing, or an exponent.
pub open spec fn tail(t: Seq<u8>) -> Seq<u8> {
    let rest = t.skip(wire::span(t, non_digits()) as int);
    if rest.len() > 0 && rest[0] == '.' as u8 {
        rest.skip(1).skip(wire::span(rest.skip(1), non_digits()) as int)
    } else {
        rest
    }
}

/// How many digits of a number without sign stand behind the point.
pub open spec fn places(t: Seq<u8>) -> nat {
    (digits(t).len() - wire::span(t, non_digits())) as nat
}

/// The exponent that a tail spells.
pub open spec fn exponent(s: Seq<u8>) -> int {
    if s.len() == 0 {
        0
    } else {
        let size = text::number(text::unsigned(s.drop_first())) as int;
        if s.len() > 1 && s[1] == '-' as u8 {
            -size
        } else {
            size
        }
    }
}

/// What a literal stands for.
pub enum Number {
    Nan,
    Infinite { negative: bool },
    /// The fraction `top / bottom`.
    Finite { negative: bool, top: nat, bottom: nat },
}

/// What a literal stands for.
pub open spec fn number(s: Seq<u8>) -> Number {
    let t = text::unsigned(s);
    let negative = s.len() > 0 && s[0] == '-' as u8;
    if text::same_but_case(t, text::bytes_of("nan")) {
        Number::Nan
    } else if text::same_but_case(t, text::bytes_of("inf")) || text::same_but_case(
        t,
        text::bytes_of("infinity"),
    ) {
        Number::Infinite { negative }
    } else {
        Number::Finite { negative, top: top(t), bottom: bottom(t) }
    }
}

/// The power of ten that the digits of a number without sign are to be taken with.
pub open spec fn scale(t: Seq<u8>) -> int {
    exponent(tail(t)) - places(t)
}

/// A number without sign is this over [`bottom`].
pub open spec fn top(t: Seq<u8>) -> nat {
    if scale(t) >= 0 {
        text::number(digits(t)) * double::power(10, scale(t) as nat)
    } else {
        text::number(digits(t))
    }
}

/// A number without sign is [`top`] over this.
pub open spec fn bottom(t: Seq<u8>) -> nat {
    if scale(t) >= 0 {
        1
    } else {
        double::power(10, (-scale(t)) as nat)
    }
}

/// In double precision a literal is the number with this sign and these bits.
pub open spec fn is_double(s: Seq<u8>, negative: bool, bits: nat) -> bool {
    match number(s) {
        Number::Nan => false,
        Number::Infinite { negative: n } => n == negative && bits == double::INFINITY,
        Number::Finite { negative: n, top, bottom } => n == negative && double::is_nearest(
            bits,
            top,
            bottom,
        ),
    }
}

/// Two literals are the same number in double precision. What is not a number is
/// not even equal to itself, and zero has no sign.
pub open spec fn same_number(a: Seq<u8>, b: Seq<u8>) -> bool {
    exists|m: bool, n: bool, bits: nat| #[trigger]
        is_double(a, m, bits) && #[trigger] is_double(b, n, bits) && (m == n || bits == 0)
}

/// A literal is one number only.
proof fn lemma_one_double(s: Seq<u8>, m: bool, x: nat, n: bool, y: nat)
    requires
        is_double(s, m, x),
        is_double(s, n, y),
    ensures
        m == n,
        x == y,
{
    if let Number::Finite { negative, top, bottom } = number(s) {
        double::lemma_power_positive(10, (-scale(text::unsigned(s))) as nat);
        double::lemma_nearest_is_unique(x, y, top, bottom);
    }
}

/// Digits spell less than one in the next place.
proof fn lemma_number_bound(s: Seq<u8>)
    requires
        text::all_digits(s),
    ensures
        text::number(s) < double::power(10, s.len()),
    decreases s.len(),
{
    if s.len() > 0 {
        assert forall|i: int| 0 <= i < s.drop_last().len() implies text::is_digit(
            #[trigger] s.drop_last()[i],
        ) by {
            assert(text::is_digit(s[i]));
        }
        assert(text::is_digit(s.last()));
        lemma_number_bound(s.drop_last());
    }
}

/// The exponent that a tail spells, cut off where it no longer fits.
fn exponent_of(b: &[u8]) -> (r: i128)
    requires
        is_tail(b@),
    ensures
        -0x1_0000_0000_0000_0000 <= r <= 0x1_0000_0000_0000_0000,
        -0x1_0000_0000_0000_0000 < r < 0x1_0000_0000_0000_0000 ==> r == exponent(b@),
        r == 0x1_0000_0000_0000_0000 ==> exponent(b@) >= r,
        r == -0x1_0000_0000_0000_0000 ==> exponent(b@) <= r,
{
    if b.len() == 0 {
        return 0;
    }
    let after = text::from_index(b, 1);
    assert(after@ =~= b@.drop_first());
    let size: i128 = match text::digits_up_to(without_sign(after), u64::MAX) {
        Some(n) => n as i128,
        None => 0x1_0000_0000_0000_0000,
    };
    if b.len() > 1 && b[1] == '-' as u8 {
        -size
    } else {
        size
    }
}

/// The number that digits spell.
fn large(b: &[u8]) -> (r: Large)
    requires
        text::all_digits(b@),
    ensures
        r@ == text::number(b@),
{
    let mut out = Large::new(0);
    let mut i: usize = 0;
    while i < b.len()
        invariant
            i <= b@.len(),
            text::all_digits(b@),
            out@ == text::number(b@.take(i as int)),
        decreases b@.len() - i,
    {
        assert(text::is_digit(b@[i as int]));
        assert(b@.take(i + 1).drop_last() =~= b@.take(i as int));
        out = out.scaled(10, (b[i] - '0' as u8) as u64);
        i += 1;
    }
    assert(b@.take(i as int) =~= b@);
    out
}

/// The digits of a number without sign, and how many of them stand before the
/// point.
fn digits_of(b: &[u8]) -> (r: (Vec<u8>, usize))
    ensures
        r.0@ == digits(b@),
        r.1 == wire::span(b@, non_digits()),
        r.1 <= r.0@.len() <= b@.len(),
        text::all_digits(r.0@),
{
    let whole = digit_run(b);
    let rest = text::from_index(b, whole);
    let mut all: Vec<u8> = Vec::new();
    text::append_bytes(&mut all, vstd::slice::slice_subrange(b, 0, whole));
    assert(all@ =~= b@.take(whole as int));
    proof {
        wire::lemma_span(b@, non_digits());
        assert forall|i: int| 0 <= i < all@.len() implies text::is_digit(#[trigger] all@[i]) by {
            assert(!non_digits().contains(b@[i]));
        }
    }
    if rest.len() > 0 && rest[0] == '.' as u8 {
        let after = text::from_index(rest, 1);
        let part = digit_run(after);
        let ghost before = all@;
        text::append_bytes(&mut all, vstd::slice::slice_subrange(after, 0, part));
        assert(all@ =~= digits(b@));
        proof {
            wire::lemma_span(after@, non_digits());
            assert forall|i: int| 0 <= i < all@.len() implies text::is_digit(
                #[trigger] all@[i],
            ) by {
                if i < before.len() {
                    assert(text::is_digit(before[i]));
                } else {
                    assert(!non_digits().contains(after@[i - before.len()]));
                }
            }
        }
    }
    (all, whole)
}

/// What follows the digits of a number without sign.
fn tail_of(b: &[u8]) -> (r: &[u8])
    requires
        is_plain_number(b@),
    ensures
        r@ == tail(b@),
        is_tail(r@),
{
    let rest = text::from_index(b, digit_run(b));
    if rest.len() > 0 && rest[0] == '.' as u8 {
        let after = text::from_index(rest, 1);
        text::from_index(after, digit_run(after))
    } else {
        rest
    }
}

/// The bits of a number without sign in double precision.
fn bits_of(b: &[u8]) -> (r: u64)
    requires
        is_plain_number(b@),
        b@.len() <= isize::MAX,
    ensures
        double::is_nearest(r as nat, top(b@), bottom(b@)),
{
    let (all, whole) = digits_of(b);
    let len: i128 = all.len() as i128;
    let value = large(all.as_slice());
    let power: i128 = exponent_of(tail_of(b)) - (len - whole as i128);
    proof {
        double::lemma_power_positive(10, (-scale(b@)) as nat);
        lemma_number_bound(all@);
    }
    if let Measure::Same = value.against(&Large::new(0)) {
        proof {
            assert(0 * double::power(10, scale(b@) as nat) == 0);
            double::lemma_zero(bottom(b@));
        }
        0
    } else if power >= 1100 {
        proof {
            double::lemma_infinite(text::number(all@), scale(b@) as nat);
        }
        double::INFINITY
    } else if power <= -(len + 1100) {
        proof {
            double::lemma_negligible(text::number(all@), all@.len(), (-scale(b@)) as nat);
        }
        0
    } else if power >= 0 {
        double::nearest(value.times_ten_to(power as u64), &Large::new(1))
    } else {
        let one = Large::new(1);
        let under = one.times_ten_to((-power) as u64);
        assert(1 * double::power(10, (-power) as nat) == double::power(10, (-power) as nat));
        double::nearest(value, &under)
    }
}

/// The sign and the bits of a literal in double precision; `None` when it is not a
/// number.
fn double_of(b: &[u8]) -> (r: Option<(bool, u64)>)
    requires
        is_float(b@),
        b@.len() <= isize::MAX,
    ensures
        match r {
            Some((negative, bits)) => is_double(b@, negative, bits as nat),
            None => number(b@) is Nan,
        },
{
    let t = without_sign(b);
    let negative: bool = b.len() > 0 && b[0] == '-' as u8;
    if text::eq_but_case(t, "nan".as_bytes()) {
        None
    } else if text::eq_but_case(t, "inf".as_bytes()) || text::eq_but_case(
        t,
        "infinity".as_bytes(),
    ) {
        Some((negative, double::INFINITY))
    } else {
        Some((negative, bits_of(t)))
    }
}

/// Whether two literals are the same number in double precision.
fn equal_numbers(a: &[u8], b: &[u8]) -> (r: bool)
    requires
        is_float(a@),
        is_float(b@),
        a@.len() <= isize::MAX,
        b@.len() <= isize::MAX,
    ensures
        r == same_number(a@, b@),
{
    match (double_of(a), double_of(b)) {
        (Some((m, x)), Some((n, y))) => {
            proof {
                if same_number(a@, b@) {
                    let (i, j, bits) = choose|i: bool, j: bool, bits: nat| #[trigger]
                        is_double(a@, i, bits) && #[trigger] is_double(b@, j, bits) && (i == j
                            || bits == 0);
                    lemma_one_double(a@, m, x as nat, i, bits);
                    lemma_one_double(b@, n, y as nat, j, bits);
                }
            }
            x == y && (m == n || x == 0)
        },
        _ => false,
    }
}

/// A floating-point literal, kept as its text.
///
/// Two values are equal when they are the same number in double precision, as
/// `1.0` and `1.00` are.
#[derive(Debug)]
pub struct Decimal {
    text: Bytes,
}

impl View for Decimal {
    type V = Seq<u8>;

    closed spec fn view(&self) -> Seq<u8> {
        wire::content(self.text)
    }
}

impl Decimal {
    #[verifier::type_invariant]
    closed spec fn well_formed(self) -> bool {
        utf8::valid_utf8(wire::content(self.text)) && is_float(wire::content(self.text))
    }

    /// The number that `text` spells, if it spells one.
    pub fn new(text: Bytes) -> (r: Option<Decimal>)
        ensures
            match r {
                Some(d) => utf8::valid_utf8(wire::content(text)) && is_float(wire::content(text))
                    && d@ == wire::content(text),
                None => !(utf8::valid_utf8(wire::content(text)) && is_float(wire::content(text))),
            },
    {
        let b = wire::as_slice(&text);
        match text::to_str(b) {
            Some(_) => if float_ok(b) {
                Some(Decimal { text })
            } else {
                None
            },
            None => None,
        }
    }

    /// The number zero.
    pub fn zero() -> (r: Decimal)
        ensures
            r@ == text::bytes_of("0"),
    {
        let text = Bytes::from_static("0".as_bytes());
        proof {
            lemma_zero();
        }
        Decimal { text }
    }

    /// The text of the number.
    pub fn as_str(&self) -> (r: &str)
        ensures
            text::bytes_of(r) == self@,
            is_float(self@),
    {
        proof {
            use_type_invariant(self);
        }
        match text::to_str(wire::as_slice(&self.text)) {
            Some(s) => s,
            None => {
                assert(false);
                ""
            },
        }
    }
}

impl PartialEq for Decimal {
    fn eq(&self, other: &Self) -> (r: bool) {
        proof {
            use_type_invariant(self);
            use_type_invariant(other);
        }
        equal_numbers(wire::as_slice(&self.text), wire::as_slice(&other.text))
    }
}

impl vstd::std_specs::cmp::PartialEqSpecImpl for Decimal {
    open spec fn obeys_eq_spec() -> bool {
        true
    }

    open spec fn eq_spec(&self, other: &Self) -> bool {
        same_number(self@, other@)
    }
}

impl Clone for Decimal {
    fn clone(&self) -> (r: Self)
        ensures
            r@ == self@,
    {
        proof {
            use_type_invariant(self);
        }
        Decimal { text: self.text.clone() }
    }
}

/// `0` is a number.
proof fn lemma_zero()
    ensures
        utf8::valid_utf8(text::bytes_of("0")),
        is_float(text::bytes_of("0")),
{
    reveal_strlit("0");
    broadcast use utf8::is_ascii_chars_encode_utf8;

    utf8::encode_utf8_valid_utf8("0"@);
    let s = text::bytes_of("0");
    assert(utf8::is_ascii_chars("0"@));
    assert(s.len() == 1 && s[0] == '0' as u8);
    assert(text::unsigned(s) == s);
    wire::lemma_span_none(s, non_digits());
    assert(s.skip(1).len() == 0);
}

/// A number that begins with a digit or a point is no word.
proof fn lemma_no_word(t: Seq<u8>)
    requires
        t.len() > 0,
        t[0] < 65,
    ensures
        !text::same_but_case(t, text::bytes_of("inf")),
        !text::same_but_case(t, text::bytes_of("infinity")),
        !text::same_but_case(t, text::bytes_of("nan")),
{
    reveal_strlit("inf");
    reveal_strlit("infinity");
    reveal_strlit("nan");
    text::lemma_ascii_bytes("inf");
    text::lemma_ascii_bytes("infinity");
    text::lemma_ascii_bytes("nan");
    assert(text::bytes_of("inf")[0] == 105);
    assert(text::bytes_of("infinity")[0] == 105);
    assert(text::bytes_of("nan")[0] == 110);
}

/// The parts of a number without sign.
proof fn lemma_parts(whole: Seq<u8>, point: bool, part: Seq<u8>, end: Seq<u8>, t: Seq<u8>)
    requires
        text::all_digits(whole),
        text::all_digits(part),
        !point ==> part.len() == 0,
        end.len() > 0 ==> end[0] == 101 || end[0] == 69,
        t == whole + if point {
            seq![46u8] + part + end
        } else {
            end
        },
    ensures
        wire::span(t, non_digits()) == whole.len(),
        digits(t) == whole + part,
        tail(t) == end,
        places(t) == part.len(),
        is_plain_number(t) <==> whole.len() + part.len() > 0 && is_tail(end),
{
    let rest = if point {
        seq![46u8] + part + end
    } else {
        end
    };
    assert forall|j: int| 0 <= j < whole.len() implies !non_digits().contains(#[trigger] t[j]) by {
        assert(t[j] == whole[j]);
    }
    if rest.len() > 0 {
        assert(t[whole.len() as int] == rest[0]);
        wire::lemma_span_found(t, non_digits(), whole.len() as int);
    } else {
        assert(t =~= whole);
        wire::lemma_span_none(t, non_digits());
    }
    assert(t.skip(whole.len() as int) =~= rest);
    assert(t.take(whole.len() as int) =~= whole);
    if point {
        let u = part + end;
        assert(rest.skip(1) =~= u);
        assert forall|j: int| 0 <= j < part.len() implies !non_digits().contains(#[trigger] u[j]) by {
            assert(u[j] == part[j]);
        }
        if end.len() > 0 {
            assert(u[part.len() as int] == end[0]);
            wire::lemma_span_found(u, non_digits(), part.len() as int);
        } else {
            assert(u =~= part);
            wire::lemma_span_none(u, non_digits());
        }
        assert(u.take(part.len() as int) =~= part);
        assert(u.skip(part.len() as int) =~= end);
    } else {
        assert(whole + part =~= whole);
    }
}

/// A sign is taken off and says whether a literal is negative.
proof fn lemma_sign(sign: Seq<u8>, t: Seq<u8>)
    requires
        sign == Seq::<u8>::empty() || sign == seq![43u8] || sign == seq![45u8],
        t.len() > 0 && t[0] != 43 && t[0] != 45,
    ensures
        text::unsigned(sign + t) == t,
        (sign + t)[0] == 45 <==> sign == seq![45u8],
        (sign + t).len() > 0,
{
    assert(seq![43u8][0] == 43 && seq![45u8][0] == 45);
    if sign.len() == 0 {
        assert(sign + t =~= t);
    } else {
        assert((sign + t)[0] == sign[0]);
        assert((sign + t).drop_first() =~= t);
    }
}

/// The letter, the sign and the digits of an exponent.
proof fn lemma_exponent(letter: u8, side: Seq<u8>, power: Seq<u8>)
    requires
        letter == 101 || letter == 69,
        side == Seq::<u8>::empty() || side == seq![43u8] || side == seq![45u8],
        text::all_digits(power),
        power.len() > 0,
    ensures
        is_exponent(seq![letter] + side + power),
        exponent(seq![letter] + side + power) == if side == seq![45u8] {
            -(text::number(power) as int)
        } else {
            text::number(power) as int
        },
{
    let end = seq![letter] + side + power;
    let rest = side + power;
    assert(text::is_digit(power[0]));
    lemma_sign(side, power);
    assert(end[0] == letter);
    assert(end[1] == rest[0]);
    assert(end.drop_first() =~= rest);
}

/// A literal is a sign or none, digits, a point with more digits or none, and an
/// exponent or none. It stands for its digits, taken as one number, with the
/// point moved left by the digits behind it and right by the exponent.
pub proof fn law_literal_is_read(
    sign: Seq<u8>,
    whole: Seq<u8>,
    point: bool,
    part: Seq<u8>,
    scaled: bool,
    letter: u8,
    side: Seq<u8>,
    power: Seq<u8>,
    s: Seq<u8>,
)
    requires
        sign == Seq::<u8>::empty() || sign == seq![43u8] || sign == seq![45u8],
        text::all_digits(whole) && text::all_digits(part) && text::all_digits(power),
        !point ==> part.len() == 0,
        whole.len() + part.len() > 0,
        letter == 101 || letter == 69,
        side == Seq::<u8>::empty() || side == seq![43u8] || side == seq![45u8],
        scaled ==> power.len() > 0,
        s == sign + (whole + if point {
            seq![46u8] + part + if scaled {
                seq![letter] + side + power
            } else {
                Seq::empty()
            }
        } else if scaled {
            seq![letter] + side + power
        } else {
            Seq::empty()
        }),
    ensures
        is_float(s),
        ({
            let shift: int = if !scaled {
                0
            } else if side == seq![45u8] {
                -(text::number(power) as int)
            } else {
                text::number(power) as int
            };
            let up = shift - part.len();
            number(s) == (Number::Finite {
                negative: sign == seq![45u8],
                top: if up >= 0 {
                    text::number(whole + part) * double::power(10, up as nat)
                } else {
                    text::number(whole + part)
                },
                bottom: if up >= 0 {
                    1
                } else {
                    double::power(10, (-up) as nat)
                },
            })
        }),
{
    let end = if scaled {
        seq![letter] + side + power
    } else {
        Seq::empty()
    };
    let t = whole + if point {
        seq![46u8] + part + end
    } else {
        end
    };
    lemma_parts(whole, point, part, end, t);
    if whole.len() > 0 {
        assert(t[0] == whole[0]);
        assert(text::is_digit(whole[0]));
    } else {
        assert(t[0] == 46);
    }
    lemma_sign(sign, t);
    lemma_no_word(t);
    if scaled {
        lemma_exponent(letter, side, power);
    }
    assert(s == sign + t);
}

/// `inf`, `infinity` and `nan`, in any case and with a sign or without, are
/// literals too: the infinite, and what is no number.
pub proof fn law_words_are_read(t: Seq<u8>)
    requires
        t.len() > 0 && t[0] != 43 && t[0] != 45,
        text::same_but_case(t, text::bytes_of("inf")) || text::same_but_case(
            t,
            text::bytes_of("infinity"),
        ) || text::same_but_case(t, text::bytes_of("nan")),
    ensures
        is_float(t) && is_float(seq![43u8] + t) && is_float(seq![45u8] + t),
        text::same_but_case(t, text::bytes_of("nan")) ==> number(t) is Nan && number(
            seq![45u8] + t,
        ) is Nan && number(seq![43u8] + t) is Nan,
        !text::same_but_case(t, text::bytes_of("nan")) ==> number(t) == (Number::Infinite {
            negative: false,
        }) && number(seq![43u8] + t) == (Number::Infinite { negative: false }) && number(
            seq![45u8] + t,
        ) == (Number::Infinite { negative: true }),
{
    assert((seq![43u8] + t).drop_first() =~= t);
    assert((seq![45u8] + t).drop_first() =~= t);
}

/// Nothing, a bare sign and a bare point are no literals.
pub proof fn law_no_digits_no_literal(sign: u8)
    requires
        sign == 43 || sign == 45 || sign == 46,
    ensures
        !is_float(Seq::empty()),
        !is_float(seq![sign]),
{
    reveal_strlit("inf");
    reveal_strlit("infinity");
    reveal_strlit("nan");
    text::lemma_ascii_bytes("inf");
    text::lemma_ascii_bytes("infinity");
    text::lemma_ascii_bytes("nan");
    let e = Seq::<u8>::empty();
    lemma_parts(e, false, e, e, e);
    assert(e + e =~= e);
    assert(seq![sign].drop_first() =~= e);
    lemma_parts(e, true, e, e, seq![46u8]);
    assert(e + (seq![46u8] + e + e) =~= seq![46u8]);
    if sign == 46 {
        lemma_parts(e, true, e, e, e + (seq![46u8] + e + e));
    }
}

/// What is no number equals nothing; infinities are equal when their signs are.
pub proof fn law_equality_of_the_infinite(a: Seq<u8>, b: Seq<u8>)
    ensures
        number(a) is Nan || number(b) is Nan ==> !same_number(a, b),
        number(a) is Infinite && number(b) is Infinite ==> (same_number(a, b) <==> number(a)
            == number(b)),
        same_number(a, b) ==> same_number(b, a),
{
    if number(a) is Infinite && number(b) is Infinite && number(a) == number(b) {
        let n = number(a)->Infinite_negative;
        assert(is_double(a, n, double::INFINITY as nat));
        assert(is_double(b, n, double::INFINITY as nat));
    }
    if same_number(a, b) {
        let (m, n, bits) = choose|m: bool, n: bool, bits: nat| #[trigger]
            is_double(a, m, bits) && #[trigger] is_double(b, n, bits) && (m == n || bits == 0);
        assert(is_double(b, n, bits) && is_double(a, m, bits));
    }
}

/// A number is made of every literal, and keeps its text; zero is `0`.
pub proof fn law_numbers_keep_their_text(
    text: Bytes,
    r: Option<Decimal>,
    zero: Decimal,
    d: Decimal,
    s: &str,
)
    requires
        call_ensures(Decimal::new, (text,), r),
        call_ensures(Decimal::zero, (), zero),
        call_ensures(Decimal::as_str, (&d,), s),
    ensures
        r is Some <==> utf8::valid_utf8(wire::content(text)) && is_float(wire::content(text)),
        r matches Some(n) ==> n@ == wire::content(text),
        zero@ == seq![48u8],
        text::bytes_of(s) == d@,
{
    reveal_strlit("0");
    text::lemma_one_byte("0", '0');
}

/// Two literals of the same sign that stand for the same fraction are the same
/// number: trailing zeros and exponents do not matter.
pub proof fn law_equal_fractions_are_equal(a: Seq<u8>, b: Seq<u8>, negative: bool, bits: nat)
    requires
        number(a) is Finite && number(b) is Finite,
        number(a)->Finite_negative == number(b)->Finite_negative,
        number(a)->top * number(b)->bottom == number(b)->top * number(a)->bottom,
        is_double(a, negative, bits),
    ensures
        is_double(b, negative, bits),
        same_number(a, b),
{
    double::lemma_power_positive(10, (-scale(text::unsigned(a))) as nat);
    double::lemma_power_positive(10, (-scale(text::unsigned(b))) as nat);
    double::law_equal_fractions_are_rounded_alike(
        bits,
        number(a)->top,
        number(a)->bottom,
        number(b)->top,
        number(b)->bottom,
    );
    assert(is_double(a, negative, bits) && is_double(b, negative, bits));
}

/// Literals whose doubles differ are different numbers, but for the two zeros.
pub proof fn law_different_doubles_are_different(
    a: Seq<u8>,
    b: Seq<u8>,
    m: bool,
    x: nat,
    n: bool,
    y: nat,
)
    requires
        is_double(a, m, x),
        is_double(b, n, y),
    ensures
        same_number(a, b) <==> x == y && (m == n || x == 0),
{
    if same_number(a, b) {
        let (k, l, z) = choose|k: bool, l: bool, z: nat| #[trigger]
            is_double(a, k, z) && #[trigger] is_double(b, l, z) && (k == l || z == 0);
        lemma_one_double(a, m, x, k, z);
        lemma_one_double(b, n, y, l, z);
    }
}

} // verus!
