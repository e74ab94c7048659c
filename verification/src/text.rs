//! Text as bytes, and the few string operations the rest is built on.
use vstd::prelude::*;
use vstd::utf8;

verus! {

/// The bytes of a string: its UTF-8 encoding.
pub open spec fn bytes_of(s: &str) -> Seq<u8> {
    utf8::encode_utf8(s@)
}

/// `b` is `s` byte for byte.
pub(crate) fn same_bytes(b: &[u8], s: &[u8]) -> (r: bool)
    ensures
        r == (b@ == s@),
{
    if b.len() != s.len() {
        return false;
    }
    let mut i: usize = 0;
    while i < s.len()
        invariant
            i <= s@.len(),
            b@.len() == s@.len(),
            forall|j: int| 0 <= j < i ==> b@[j] == s@[j],
        decreases s@.len() - i,
    {
        if b[i] != s[i] {
            assert(b@[i as int] != s@[i as int]);
            return false;
        }
        i += 1;
    }
    assert(b@ =~= s@);
    true
}

/// The bytes of ASCII text are its characters.
pub proof fn lemma_ascii_bytes(s: &str)
    requires
        utf8::is_ascii_chars(s@),
    ensures
        bytes_of(s).len() == s@.len(),
        forall|i: int| 0 <= i < s@.len() ==> #[trigger] bytes_of(s)[i] == s@[i] as u8,
{
    utf8::is_ascii_chars_encode_utf8(s@);
}

/// A string of one ASCII character is one byte.
pub proof fn lemma_one_byte(s: &str, c: char)
    requires
        s@ =~= seq![c],
        (c as u32) < 128,
    ensures
        bytes_of(s) == seq![c as u8],
{
    assert(utf8::is_ascii_chars(s@));
    utf8::is_ascii_chars_encode_utf8(s@);
    assert(bytes_of(s) =~= seq![c as u8]);
}

/// `b` spells `word`.
pub(crate) fn is_word(b: &[u8], word: &str) -> (r: bool)
    ensures
        r == (b@ == bytes_of(word)),
{
    same_bytes(b, word.as_bytes())
}

/// `b` from index `from` on.
pub(crate) fn from_index(b: &[u8], from: usize) -> (r: &[u8])
    requires
        from <= b@.len(),
    ensures
        r@ == b@.skip(from as int),
{
    let r = vstd::slice::slice_subrange(b, from, b.len());
    assert(r@ =~= b@.skip(from as int));
    r
}

/// Appends bytes.
pub(crate) fn append_bytes(out: &mut Vec<u8>, s: &[u8])
    ensures
        final(out)@ == old(out)@ + s@,
{
    let ghost before = out@;
    let mut i: usize = 0;
    while i < s.len()
        invariant
            i <= s@.len(),
            out@ == before + s@.take(i as int),
        decreases s@.len() - i,
    {
        out.push(s[i]);
        i += 1;
        assert(out@ =~= before + s@.take(i as int));
    }
    assert(s@.take(i as int) =~= s@);
}

/// `s` begins with `head`.
pub open spec fn begins_with(s: Seq<u8>, head: Seq<u8>) -> bool {
    head.len() <= s.len() && s.take(head.len() as int) == head
}

/// `b` begins with `word`.
pub(crate) fn starts_with_word(b: &[u8], word: &str) -> (r: bool)
    ensures
        r == begins_with(b@, bytes_of(word)),
{
    let w = word.as_bytes();
    if b.len() < w.len() {
        return false;
    }
    same_bytes(vstd::slice::slice_subrange(b, 0, w.len()), w)
}

/// `b` as text when it is valid UTF-8. Wraps `core::str::from_utf8`, which
/// accepts exactly the valid encodings and keeps the bytes.
#[verifier::external_body]
pub(crate) fn to_str(b: &[u8]) -> (r: Option<&str>)
    ensures
        match r {
            Some(s) => utf8::valid_utf8(b@) && bytes_of(s) == b@,
            None => !utf8::valid_utf8(b@),
        },
{
    core::str::from_utf8(b).ok()
}

/// What `String::from_utf8_lossy` makes of bytes that are not valid UTF-8: text
/// with replacement characters in it.
pub uninterp spec fn lossy(b: Seq<u8>) -> Seq<char>;

/// `String::from_utf8_lossy`, as an owned string.
#[verifier::external_body]
fn to_lossy(b: &[u8]) -> (r: String)
    ensures
        r@ == lossy(b@),
{
    String::from_utf8_lossy(b).into_owned()
}

/// Bytes as text: what they encode, or else what a lossy reading makes of them.
pub open spec fn readable(b: Seq<u8>) -> Seq<char> {
    if utf8::valid_utf8(b) {
        utf8::decode_utf8(b)
    } else {
        lossy(b)
    }
}

/// Appends bytes as text.
pub(crate) fn push_readable(out: &mut String, b: &[u8])
    ensures
        final(out)@ == old(out)@ + readable(b@),
{
    match to_str(b) {
        Some(s) => {
            proof {
                utf8::encode_utf8_decode_utf8(s@);
            }
            out.append(s);
        },
        None => {
            out.append(to_lossy(b).as_str());
        },
    }
}

/// Text comes back readable as it was.
pub proof fn law_text_is_readable(s: Seq<char>)
    ensures
        readable(utf8::encode_utf8(s)) == s,
{
    utf8::encode_utf8_valid_utf8(s);
    utf8::encode_utf8_decode_utf8(s);
}

/// An ASCII digit.
pub open spec fn is_digit(b: u8) -> bool {
    '0' as u8 <= b <= '9' as u8
}

/// Nothing but ASCII digits.
pub open spec fn all_digits(s: Seq<u8>) -> bool {
    forall|i: int| 0 <= i < s.len() ==> is_digit(#[trigger] s[i])
}

/// The number that digits spell, in base ten.
pub open spec fn number(s: Seq<u8>) -> nat
    decreases s.len(),
{
    if s.len() == 0 {
        0
    } else {
        number(s.drop_last()) * 10 + (s.last() - '0' as u8) as nat
    }
}

/// Digits are read in base ten from the left: one more digit makes ten of what
/// stands before it, a single digit is itself, and zeros in front count nothing.
pub proof fn law_digits_are_read_in_base_ten(s: Seq<u8>, digit: u8)
    requires
        48 <= digit <= 57,
    ensures
        number(Seq::empty()) == 0,
        number(seq![digit]) == digit - 48,
        number(s.push(digit)) == 10 * number(s) + (digit - 48),
        number(seq![48u8] + s) == number(s),
    decreases s.len(),
{
    assert(s.push(digit).drop_last() =~= s);
    assert(seq![digit].drop_last() =~= Seq::empty());
    let t = seq![48u8] + s;
    if s.len() == 0 {
        assert(t =~= seq![48u8]);
        assert(t.drop_last() =~= Seq::empty());
    } else {
        assert(t.drop_last() =~= seq![48u8] + s.drop_last());
        law_digits_are_read_in_base_ten(s.drop_last(), digit);
    }
}

/// A prefix never spells more than the whole.
pub proof fn lemma_number_of_prefix(s: Seq<u8>, n: int)
    requires
        all_digits(s),
        0 <= n <= s.len(),
    ensures
        number(s.take(n)) <= number(s),
    decreases s.len() - n,
{
    if n == s.len() {
        assert(s.take(n) =~= s);
    } else {
        lemma_number_of_prefix(s, n + 1);
        assert(s.take(n + 1).drop_last() =~= s.take(n));
        assert(is_digit(s[n]));
    }
}

/// The number that digits spell, when it is at most `max`.
pub(crate) fn digits_up_to(b: &[u8], max: u64) -> (r: Option<u64>)
    ensures
        match r {
            Some(n) => all_digits(b@) && number(b@) <= max && n == number(b@),
            None => !(all_digits(b@) && number(b@) <= max),
        },
{
    let mut n: u64 = 0;
    let mut i: usize = 0;
    while i < b.len()
        invariant
            i <= b@.len(),
            forall|j: int| 0 <= j < i ==> is_digit(#[trigger] b@[j]),
            n == number(b@.take(i as int)),
            n <= max,
        decreases b@.len() - i,
    {
        let c: u8 = b[i];
        if !(c >= '0' as u8 && c <= '9' as u8) {
            assert(!is_digit(b@[i as int]));
            return None;
        }
        proof {
            assert(b@.take(i + 1).drop_last() =~= b@.take(i as int));
            if all_digits(b@) {
                lemma_number_of_prefix(b@, i + 1);
            }
        }
        let digit: u64 = (c - '0' as u8) as u64;
        match n.checked_mul(10) {
            Some(tens) => match tens.checked_add(digit) {
                Some(next) => {
                    if next > max {
                        return None;
                    }
                    n = next;
                },
                None => {
                    return None;
                },
            },
            None => {
                return None;
            },
        }
        i += 1;
    }
    assert(b@.take(i as int) =~= b@);
    Some(n)
}

/// `s` without a leading sign.
pub open spec fn unsigned(s: Seq<u8>) -> Seq<u8> {
    if s.len() > 0 && (s[0] == '+' as u8 || s[0] == '-' as u8) {
        s.drop_first()
    } else {
        s
    }
}

/// An ASCII letter in lower case; any other byte as it is.
pub open spec fn lower(b: u8) -> u8 {
    if 'A' as u8 <= b <= 'Z' as u8 {
        (b + 32) as u8
    } else {
        b
    }
}

/// `a` and `b` agree but for the case of ASCII letters.
pub open spec fn same_but_case(a: Seq<u8>, b: Seq<u8>) -> bool {
    a.len() == b.len() && forall|i: int|
        0 <= i < a.len() ==> lower(#[trigger] a[i]) == lower(b[i])
}

/// An ASCII letter in lower case; any other byte as it is.
pub(crate) fn to_lower(b: u8) -> (r: u8)
    ensures
        r == lower(b),
{
    if 'A' as u8 <= b && b <= 'Z' as u8 {
        b + 32
    } else {
        b
    }
}

/// `a` and `b` agree but for the case of ASCII letters.
pub(crate) fn eq_but_case(a: &[u8], b: &[u8]) -> (r: bool)
    ensures
        r == same_but_case(a@, b@),
{
    if a.len() != b.len() {
        return false;
    }
    let mut i: usize = 0;
    while i < a.len()
        invariant
            i <= a@.len(),
            a@.len() == b@.len(),
            forall|j: int| 0 <= j < i ==> lower(#[trigger] a@[j]) == lower(b@[j]),
        decreases a@.len() - i,
    {
        if to_lower(a[i]) != to_lower(b[i]) {
            assert(lower(a@[i as int]) != lower(b@[i as int]));
            return false;
        }
        i += 1;
    }
    true
}

/// A character with the Unicode property White_Space.
pub open spec fn is_white(c: char) -> bool {
    let n = c as u32;
    ||| 0x9 <= n <= 0xd
    ||| n == 0x20
    ||| n == 0x85
    ||| n == 0xa0
    ||| n == 0x1680
    ||| 0x2000 <= n <= 0x200a
    ||| n == 0x2028
    ||| n == 0x2029
    ||| n == 0x202f
    ||| n == 0x205f
    ||| n == 0x3000
}

/// `s` without white space at its front.
pub open spec fn trimmed_front(s: Seq<char>) -> Seq<char>
    decreases s.len(),
{
    if s.len() > 0 && is_white(s[0]) {
        trimmed_front(s.drop_first())
    } else {
        s
    }
}

/// `s` without white space at its back.
pub open spec fn trimmed_back(s: Seq<char>) -> Seq<char>
    decreases s.len(),
{
    if s.len() > 0 && is_white(s.last()) {
        trimmed_back(s.drop_last())
    } else {
        s
    }
}

/// `s` without white space at either end.
pub open spec fn trimmed(s: Seq<char>) -> Seq<char> {
    trimmed_back(trimmed_front(s))
}

/// `str::trim`: without white space, as Unicode has it, at either end.
#[verifier::external_body]
pub(crate) fn trim(s: &str) -> (r: &str)
    ensures
        r@ == trimmed(s@),
{
    s.trim()
}

/// `s` begins with `head`.
pub open spec fn has_prefix(s: Seq<char>, head: Seq<char>) -> bool {
    head.len() <= s.len() && s.take(head.len() as int) == head
}

/// `str::strip_prefix`: what follows `head` at the front of `s`.
#[verifier::external_body]
pub(crate) fn strip_prefix<'a>(s: &'a str, head: &str) -> (r: Option<&'a str>)
    ensures
        match r {
            Some(rest) => has_prefix(s@, head@) && rest@ == s@.skip(head@.len() as int),
            None => !has_prefix(s@, head@),
        },
{
    s.strip_prefix(head)
}

/// How many characters stand before the first comma; all of them without one.
pub open spec fn before_comma(s: Seq<char>) -> nat
    decreases s.len(),
{
    if s.len() == 0 || s[0] == ',' {
        0
    } else {
        1 + before_comma(s.drop_first())
    }
}

proof fn lemma_before_comma(s: Seq<char>)
    ensures
        before_comma(s) <= s.len(),
    decreases s.len(),
{
    if s.len() > 0 && s[0] != ',' {
        lemma_before_comma(s.drop_first());
    }
}

/// What stands between commas, in order.
pub open spec fn pieces(s: Seq<char>) -> Seq<Seq<char>>
    decreases s.len(),
    via pieces_decreases
{
    let n = before_comma(s) as int;
    if n < s.len() {
        seq![s.take(n)] + pieces(s.skip(n + 1))
    } else {
        seq![s]
    }
}

#[via_fn]
proof fn pieces_decreases(s: Seq<char>) {
    lemma_before_comma(s);
}

/// `str::split_once` at a comma: what stands before the first one, and what
/// follows it.
#[verifier::external_body]
fn split_comma<'a>(s: &'a str) -> (r: Option<(&'a str, &'a str)>)
    ensures
        match r {
            Some((head, tail)) => before_comma(s@) < s@.len() && head@ == s@.take(
                before_comma(s@) as int,
            ) && tail@ == s@.skip(before_comma(s@) as int + 1),
            None => before_comma(s@) == s@.len(),
        },
{
    s.split_once(',')
}

/// What stands between commas, in order.
fn split_commas<'a>(s: &'a str) -> (r: Vec<&'a str>)
    ensures
        r@.map_values(|p: &str| p@) == pieces(s@),
{
    let mut out: Vec<&'a str> = Vec::new();
    let mut rest: &'a str = s;
    assert(out@.map_values(|p: &str| p@) + pieces(rest@) =~= pieces(s@));
    loop
        invariant
            out@.map_values(|p: &str| p@) + pieces(rest@) == pieces(s@),
        decreases rest@.len(),
    {
        let ghost before = out@.map_values(|p: &str| p@);
        match split_comma(rest) {
            Some((head, tail)) => {
                out.push(head);
                assert(out@.map_values(|p: &str| p@) =~= before.push(head@));
                assert(before + (seq![head@] + pieces(tail@)) =~= before.push(head@) + pieces(
                    tail@,
                ));
                rest = tail;
            },
            None => {
                out.push(rest);
                assert(out@.map_values(|p: &str| p@) =~= before + seq![rest@]);
                return out;
            },
        }
    }
}

/// The items of a list: trimmed, and without those that are then empty.
pub open spec fn items(p: Seq<Seq<char>>) -> Seq<Seq<char>>
    decreases p.len(),
{
    if p.len() == 0 {
        Seq::empty()
    } else if trimmed(p.last()).len() == 0 {
        items(p.drop_last())
    } else {
        items(p.drop_last()).push(trimmed(p.last()))
    }
}

/// The items of a comma-separated list.
pub open spec fn listed(s: Seq<char>) -> Seq<Seq<char>> {
    items(pieces(s))
}

/// The texts of strings.
pub open spec fn texts_of(v: Seq<String>) -> Seq<Seq<char>> {
    v.map_values(|s: String| s@)
}

/// The items of a comma-separated list: trimmed, and without empty ones.
pub fn split_list(s: &str) -> (r: Vec<String>)
    ensures
        texts_of(r@) == listed(s@),
{
    let parts = split_commas(s);
    let ghost p = parts@.map_values(|x: &str| x@);
    let mut out: Vec<String> = Vec::new();
    let mut i: usize = 0;
    assert(texts_of(out@) =~= items(p.take(0)));
    while i < parts.len()
        invariant
            i <= parts@.len(),
            p == parts@.map_values(|x: &str| x@),
            texts_of(out@) == items(p.take(i as int)),
        decreases parts@.len() - i,
    {
        let item = trim(parts[i]);
        assert(p.take(i + 1).drop_last() =~= p.take(i as int));
        assert(p.take(i + 1).last() == parts@[i as int]@);
        if item.unicode_len() > 0 {
            let ghost before = out@;
            out.push(item.to_owned());
            assert(texts_of(out@) =~= texts_of(before).push(item@));
        }
        i += 1;
    }
    assert(p.take(i as int) =~= p);
    out
}

/// No item of a list is empty.
pub proof fn law_items_are_not_empty(p: Seq<Seq<char>>, i: int)
    requires
        0 <= i < items(p).len(),
    ensures
        items(p)[i].len() > 0,
    decreases p.len(),
{
    if p.len() > 0 && i < items(p.drop_last()).len() {
        law_items_are_not_empty(p.drop_last(), i);
    }
}

/// The decimal digit of a number below ten.
pub open spec fn digit(d: nat) -> char {
    ('0' as u8 + d) as u8 as char
}

/// A number in base ten, without leading zeros.
pub open spec fn decimal(n: nat) -> Seq<char>
    decreases n,
{
    if n < 10 {
        seq![digit(n)]
    } else {
        decimal(n / 10).push(digit(n % 10))
    }
}

/// Appends the decimal digit of a number below ten.
fn push_digit(out: &mut String, d: u64)
    requires
        d < 10,
    ensures
        final(out)@ == old(out)@.push(digit(d as nat)),
{
    proof {
        reveal_strlit("0");
        reveal_strlit("1");
        reveal_strlit("2");
        reveal_strlit("3");
        reveal_strlit("4");
        reveal_strlit("5");
        reveal_strlit("6");
        reveal_strlit("7");
        reveal_strlit("8");
        reveal_strlit("9");
    }
    let ghost before = out@;
    let s: &str = match d {
        0 => "0",
        1 => "1",
        2 => "2",
        3 => "3",
        4 => "4",
        5 => "5",
        6 => "6",
        7 => "7",
        8 => "8",
        _ => "9",
    };
    assert(s@ =~= seq![digit(d as nat)]);
    out.append(s);
    assert(out@ =~= before.push(digit(d as nat)));
}

/// Appends a number in base ten.
pub(crate) fn push_decimal(out: &mut String, n: u64)
    ensures
        final(out)@ == old(out)@ + decimal(n as nat),
    decreases n,
{
    let ghost before = out@;
    if n >= 10 {
        push_decimal(out, n / 10);
    }
    push_digit(out, n % 10);
    assert(out@ =~= before + decimal(n as nat));
}

/// Digits written are digits read: a number in base ten spells that number.
pub proof fn law_decimal_roundtrip(n: nat)
    ensures
        all_digits(utf8::encode_utf8(decimal(n))),
        number(utf8::encode_utf8(decimal(n))) == n,
        decimal(n).len() > 0,
    decreases n,
{
    lemma_decimal_ascii(n);
    utf8::is_ascii_chars_encode_utf8(decimal(n));
    let s = utf8::encode_utf8(decimal(n));
    assert(s.len() == decimal(n).len());
    if n < 10 {
        assert(decimal(n)[0] as u8 == s[0]);
        assert(s.drop_last().len() == 0);
        assert(number(s.drop_last()) == 0);
    } else {
        law_decimal_roundtrip(n / 10);
        lemma_decimal_ascii(n / 10);
        utf8::is_ascii_chars_encode_utf8(decimal(n / 10));
        let t = utf8::encode_utf8(decimal(n / 10));
        assert(s.drop_last() =~= t) by {
            assert forall|i: int| 0 <= i < t.len() implies s[i] == t[i] by {
                assert(decimal(n)[i] == decimal(n / 10)[i]);
                assert(decimal(n)[i] as u8 == s[i]);
                assert(decimal(n / 10)[i] as u8 == t[i]);
            }
        }
        assert(decimal(n)[s.len() - 1] as u8 == s[s.len() - 1]);
        assert forall|i: int| 0 <= i < s.len() implies is_digit(#[trigger] s[i]) by {
            if i < t.len() {
                assert(is_digit(t[i]));
            }
        }
    }
}

/// The hexadecimal digit of a number below sixteen, in lower case.
pub open spec fn hex_digit(d: nat) -> char {
    if d < 10 {
        digit(d)
    } else {
        ('a' as u8 + (d - 10)) as u8 as char
    }
}

/// A number in base sixteen, without leading zeros.
pub open spec fn hex_number(n: nat) -> Seq<char>
    decreases n,
{
    if n < 16 {
        seq![hex_digit(n)]
    } else {
        hex_number(n / 16).push(hex_digit(n % 16))
    }
}

/// Bytes in base sixteen, two digits each.
pub open spec fn hex_bytes(b: Seq<u8>) -> Seq<char>
    decreases b.len(),
{
    if b.len() == 0 {
        Seq::empty()
    } else {
        hex_bytes(b.drop_last()).push(hex_digit((b.last() / 16) as nat)).push(
            hex_digit((b.last() % 16) as nat),
        )
    }
}

/// Appends the hexadecimal digit of a number below sixteen.
fn push_hex_digit(out: &mut String, d: u64)
    requires
        d < 16,
    ensures
        final(out)@ == old(out)@.push(hex_digit(d as nat)),
{
    if d < 10 {
        push_digit(out, d);
        return;
    }
    proof {
        reveal_strlit("a");
        reveal_strlit("b");
        reveal_strlit("c");
        reveal_strlit("d");
        reveal_strlit("e");
        reveal_strlit("f");
    }
    let ghost before = out@;
    let s: &str = match d {
        10 => "a",
        11 => "b",
        12 => "c",
        13 => "d",
        14 => "e",
        _ => "f",
    };
    assert(s@ =~= seq![hex_digit(d as nat)]);
    out.append(s);
    assert(out@ =~= before.push(hex_digit(d as nat)));
}

/// Appends a number in base sixteen.
pub(crate) fn push_hex(out: &mut String, n: u64)
    ensures
        final(out)@ == old(out)@ + hex_number(n as nat),
    decreases n,
{
    let ghost before = out@;
    if n >= 16 {
        push_hex(out, n / 16);
    }
    push_hex_digit(out, n % 16);
    assert(out@ =~= before + hex_number(n as nat));
}

/// Bytes in base sixteen, two digits each.
pub fn hex(bytes: &[u8]) -> (r: String)
    ensures
        r@ == hex_bytes(bytes@),
{
    let mut out: String = String::new();
    let mut i: usize = 0;
    assert(out@ =~= hex_bytes(bytes@.take(0)));
    while i < bytes.len()
        invariant
            i <= bytes@.len(),
            out@ == hex_bytes(bytes@.take(i as int)),
        decreases bytes@.len() - i,
    {
        let b: u64 = bytes[i] as u64;
        assert(bytes@.take(i + 1).drop_last() =~= bytes@.take(i as int));
        push_hex_digit(&mut out, b / 16);
        push_hex_digit(&mut out, b % 16);
        i += 1;
    }
    assert(bytes@.take(i as int) =~= bytes@);
    out
}

/// Hexadecimal text has two digits per byte and gives the bytes away: no two
/// byte strings share it.
pub proof fn law_hex_is_faithful(a: Seq<u8>, b: Seq<u8>)
    ensures
        hex_bytes(a).len() == 2 * a.len(),
        hex_bytes(a) == hex_bytes(b) ==> a == b,
    decreases a.len(),
{
    lemma_hex_len(a);
    lemma_hex_len(b);
    if hex_bytes(a) == hex_bytes(b) {
        if a.len() > 0 {
            let x = hex_bytes(a);
            let y = hex_bytes(b);
            let n = x.len() as int;
            assert(x[n - 1] == hex_digit((a.last() % 16) as nat));
            assert(x[n - 2] == hex_digit((a.last() / 16) as nat));
            assert(y[n - 1] == hex_digit((b.last() % 16) as nat));
            assert(y[n - 2] == hex_digit((b.last() / 16) as nat));
            assert(hex_bytes(a.drop_last()) =~= x.take(n - 2));
            assert(hex_bytes(b.drop_last()) =~= y.take(n - 2));
            lemma_hex_digit((a.last() % 16) as nat, (b.last() % 16) as nat);
            lemma_hex_digit((a.last() / 16) as nat, (b.last() / 16) as nat);
            law_hex_is_faithful(a.drop_last(), b.drop_last());
            assert(a =~= a.drop_last().push(a.last()));
            assert(b =~= b.drop_last().push(b.last()));
        } else {
            assert(a =~= b);
        }
    }
}

proof fn lemma_hex_len(a: Seq<u8>)
    ensures
        hex_bytes(a).len() == 2 * a.len(),
    decreases a.len(),
{
    if a.len() > 0 {
        lemma_hex_len(a.drop_last());
    }
}

proof fn lemma_hex_digit(a: nat, b: nat)
    requires
        a < 16,
        b < 16,
        hex_digit(a) == hex_digit(b),
    ensures
        a == b,
{
    assert(digit(a) as u32 == 48 + a || a >= 10);
    assert(digit(b) as u32 == 48 + b || b >= 10);
}

proof fn lemma_decimal_ascii(n: nat)
    ensures
        utf8::is_ascii_chars(decimal(n)),
    decreases n,
{
    if n >= 10 {
        lemma_decimal_ascii(n / 10);
    }
}

/// Capital letters are lowered, and no other byte is changed.
pub proof fn law_only_capitals_are_lowered(b: u8)
    ensures
        65 <= b <= 90 ==> lower(b) == b + 32,
        b < 65 || b > 90 ==> lower(b) == b,
{
}

/// A leading `+` or `-` is a sign, and one at most is taken off.
pub proof fn law_one_sign_is_taken_off(s: Seq<u8>, sign: u8)
    ensures
        sign == 43 || sign == 45 ==> unsigned(seq![sign] + s) == s,
        sign != 43 && sign != 45 ==> unsigned(seq![sign] + s) == seq![sign] + s,
        unsigned(Seq::empty()) == Seq::<u8>::empty(),
{
    assert((seq![sign] + s).drop_first() =~= s);
}

proof fn lemma_trimmed_front(a: Seq<char>, s: Seq<char>)
    requires
        forall|i: int| 0 <= i < a.len() ==> is_white(#[trigger] a[i]),
        s.len() > 0 ==> !is_white(s[0]),
    ensures
        trimmed_front(a + s) == s,
    decreases a.len(),
{
    if a.len() == 0 {
        assert(a + s =~= s);
    } else {
        assert((a + s).drop_first() =~= a.drop_first() + s);
        assert((a + s)[0] == a[0]);
        lemma_trimmed_front(a.drop_first(), s);
    }
}

proof fn lemma_trimmed_back(s: Seq<char>, b: Seq<char>)
    requires
        forall|i: int| 0 <= i < b.len() ==> is_white(#[trigger] b[i]),
        s.len() > 0 ==> !is_white(s.last()),
    ensures
        trimmed_back(s + b) == s,
    decreases b.len(),
{
    if b.len() == 0 {
        assert(s + b =~= s);
    } else {
        assert((s + b).drop_last() =~= s + b.drop_last());
        assert((s + b).last() == b.last());
        lemma_trimmed_back(s, b.drop_last());
    }
}

/// Trimming takes the white space off both ends and keeps all that is between.
pub proof fn law_trimming_keeps_what_is_between(a: Seq<char>, s: Seq<char>, b: Seq<char>)
    requires
        forall|i: int| 0 <= i < a.len() ==> is_white(#[trigger] a[i]),
        forall|i: int| 0 <= i < b.len() ==> is_white(#[trigger] b[i]),
        s.len() > 0 ==> !is_white(s[0]) && !is_white(s.last()),
    ensures
        trimmed(a + s + b) == s,
{
    if s.len() == 0 {
        let e = Seq::<char>::empty();
        assert(a + s + b =~= (a + b) + e);
        lemma_trimmed_front(a + b, e);
        lemma_trimmed_back(e, e);
        assert(e + e =~= e);
        assert(s =~= e);
    } else {
        assert(a + s + b =~= a + (s + b));
        lemma_trimmed_front(a, s + b);
        lemma_trimmed_back(s, b);
    }
}

/// Which characters are white space.
pub proof fn law_white_space(c: char)
    ensures
        is_white(' ') && is_white('\t') && is_white('\n') && is_white('\r'),
        '!' <= c <= '~' ==> !is_white(c),
        is_white(c) && (c as u32) < 0x80 ==> c == ' ' || 9 <= c as u32 <= 13,
{
}

proof fn lemma_comma_at(a: Seq<char>, rest: Seq<char>)
    requires
        !a.contains(','),
        rest.len() > 0 ==> rest[0] == ',',
    ensures
        before_comma(a + rest) == a.len(),
    decreases a.len(),
{
    let s = a + rest;
    if a.len() == 0 {
        assert(s =~= rest);
    } else {
        assert(s[0] == a[0]);
        assert(a.contains(a[0]));
        assert(s.drop_first() =~= a.drop_first() + rest);
        assert(!a.drop_first().contains(',')) by {
            if a.drop_first().contains(',') {
                let i = choose|i: int| 0 <= i < a.drop_first().len() && a.drop_first()[i] == ',';
                assert(a[i + 1] == ',');
            }
        }
        lemma_comma_at(a.drop_first(), rest);
    }
}

/// A list is cut at its commas and nowhere else.
pub proof fn law_lists_are_cut_at_commas(a: Seq<char>, b: Seq<char>)
    requires
        !a.contains(','),
    ensures
        pieces(a) == seq![a],
        pieces(a + seq![','] + b) == seq![a] + pieces(b),
{
    lemma_comma_at(a, Seq::empty());
    assert(a + Seq::<char>::empty() =~= a);
    let s = a + seq![','] + b;
    assert(s =~= a + (seq![','] + b));
    lemma_comma_at(a, seq![','] + b);
    assert(s.take(a.len() as int) =~= a);
    assert(s.skip(a.len() as int + 1) =~= b);
}

/// Each piece that is more than white space is an item, trimmed, in order.
pub proof fn law_items_are_trimmed_pieces(p: Seq<Seq<char>>, piece: Seq<char>)
    ensures
        items(Seq::empty()) == Seq::<Seq<char>>::empty(),
        trimmed(piece).len() > 0 ==> items(p.push(piece)) == items(p).push(trimmed(piece)),
        trimmed(piece).len() == 0 ==> items(p.push(piece)) == items(p),
{
    assert(p.push(piece).drop_last() =~= p);
}

/// Numbers are written in base ten with no zero in front: one digit is itself,
/// and one more place adds one more digit behind.
pub proof fn law_decimal_has_no_leading_zero(n: nat, d: nat)
    requires
        d < 10,
    ensures
        decimal(n)[0] == '0' ==> n == 0,
        decimal(d) == seq![(48 + d) as u8 as char],
        n > 0 ==> decimal(10 * n + d) == decimal(n).push((48 + d) as u8 as char),
    decreases n,
{
    if n >= 10 {
        law_decimal_has_no_leading_zero(n / 10, 0);
        law_decimal_roundtrip(n / 10);
        assert(decimal(n)[0] == decimal(n / 10)[0]);
    }
    assert((10 * n + d) / 10 == n);
    assert((10 * n + d) % 10 == d);
}

/// Hexadecimal digits are `0` to `9` and `a` to `f`.
pub proof fn law_hex_digits(d: nat)
    ensures
        d < 10 ==> hex_digit(d) == (48 + d) as u8 as char,
        10 <= d < 16 ==> hex_digit(d) == (87 + d) as u8 as char,
{
}

/// Each byte is written as two digits, the upper half first, one byte behind the
/// other; a number as its digits in base sixteen, with no zero in front.
pub proof fn law_hex_is_written_byte_by_byte(b: Seq<u8>, x: u8, n: nat, d: nat)
    requires
        d < 16,
    ensures
        hex_bytes(Seq::empty()).len() == 0,
        hex_bytes(b.push(x)) == hex_bytes(b).push(hex_digit((x / 16) as nat)).push(
            hex_digit((x % 16) as nat),
        ),
        hex_number(d) == seq![hex_digit(d)],
        n > 0 ==> hex_number(16 * n + d) == hex_number(n).push(hex_digit(d)),
{
    assert(b.push(x).drop_last() =~= b);
    assert((16 * n + d) / 16 == n);
    assert((16 * n + d) % 16 == d);
}

/// `s` begins with `head` when something can be put behind `head` that gives `s`.
pub proof fn law_beginnings(head: Seq<u8>, rest: Seq<u8>, s: Seq<u8>)
    ensures
        begins_with(head + rest, head),
        begins_with(s, head) ==> s == head + s.skip(head.len() as int),
{
    assert((head + rest).take(head.len() as int) =~= head);
    if begins_with(s, head) {
        assert(s =~= s.take(head.len() as int) + s.skip(head.len() as int));
    }
}

/// `s` begins with `head` when something can be put behind `head` that gives `s`.
pub proof fn law_prefixes(head: Seq<char>, rest: Seq<char>, s: Seq<char>)
    ensures
        has_prefix(head + rest, head),
        has_prefix(s, head) ==> s == head + s.skip(head.len() as int),
{
    assert((head + rest).take(head.len() as int) =~= head);
    if has_prefix(s, head) {
        assert(s =~= s.take(head.len() as int) + s.skip(head.len() as int));
    }
}

} // verus!
