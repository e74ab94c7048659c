//! JSON or MessagePack, as the client asks for.
use crate::api::headers;
use crate::text;
use crate::wire;
use axum::http::{HeaderMap, HeaderValue};
use vstd::prelude::*;

verus! {

/// The form of an answer.
#[derive(Debug, Clone, Copy, PartialEq, Eq, Structural)]
pub enum Accept {
    Json,
    MessagePack,
}

/// The media type of a form.
pub open spec fn media_type(a: Accept) -> &'static str {
    match a {
        Accept::Json => "application/json",
        Accept::MessagePack => "application/msgpack",
    }
}

/// `needle` stands somewhere in `s`.
pub open spec fn mentions(s: Seq<u8>, needle: Seq<u8>) -> bool {
    exists|i: int| wire::occurs_at(s, needle, i)
}

/// The form that an `Accept` header asks for: JSON unless it can be read and
/// mentions MessagePack.
pub open spec fn form_of(accept: Option<Seq<u8>>) -> Accept {
    match accept {
        Some(s) => if headers::is_visible(s) && (mentions(s, text::bytes_of("application/msgpack"))
            || mentions(s, text::bytes_of("application/x-msgpack"))) {
            Accept::MessagePack
        } else {
            Accept::Json
        },
        None => Accept::Json,
    }
}

/// The value of the `Accept` header.
pub open spec fn accept_header(h: HeaderMap<HeaderValue>) -> Option<Seq<u8>> {
    headers::first_values(h).get("accept"@)
}

/// Whether `needle` stands somewhere in `s`.
fn contains(s: &[u8], needle: &[u8]) -> (r: bool)
    ensures
        r == mentions(s@, needle@),
{
    match memchr::memmem::find(s, needle) {
        Some(i) => {
            assert(wire::occurs_at(s@, needle@, i as int));
            true
        },
        None => false,
    }
}

impl Accept {
    /// The media type of the form.
    pub fn content_type(self) -> (r: &'static str)
        ensures
            r == media_type(self),
    {
        match self {
            Accept::Json => "application/json",
            Accept::MessagePack => "application/msgpack",
        }
    }

    /// The form that the request asks for. JSON where it asks for anything,
    /// for nothing, or for something else.
    pub fn from_headers(headers: &HeaderMap<HeaderValue>) -> (r: Self)
        ensures
            r == form_of(accept_header(*headers)),
    {
        match headers::find(headers, "accept") {
            None => Accept::Json,
            Some(v) => match headers::as_text(v) {
                Some(s) => Accept::from_text(s),
                None => Accept::Json,
            },
        }
    }

    /// The form that the text of an `Accept` header asks for.
    pub fn from_text(s: &str) -> (r: Self)
        ensures
            headers::is_visible(text::bytes_of(s)) ==> r == form_of(Some(text::bytes_of(s))),
            r == Accept::MessagePack <==> mentions(
                text::bytes_of(s),
                text::bytes_of("application/msgpack"),
            ) || mentions(text::bytes_of(s), text::bytes_of("application/x-msgpack")),
    {
        let b = s.as_bytes();
        if contains(b, "application/msgpack".as_bytes()) || contains(
            b,
            "application/x-msgpack".as_bytes(),
        ) {
            Accept::MessagePack
        } else {
            Accept::Json
        }
    }

    /// The `Content-Type` of the form.
    pub fn header_value(self) -> (r: HeaderValue)
        ensures
            headers::value_bytes(r) == text::bytes_of(media_type(self)),
    {
        proof {
            lemma_media_types_visible();
        }
        headers::fixed_value(self.content_type())
    }
}

proof fn lemma_media_types_visible()
    ensures
        headers::is_visible(text::bytes_of("application/json")),
        headers::is_visible(text::bytes_of("application/msgpack")),
{
    reveal_strlit("application/json");
    reveal_strlit("application/msgpack");
    assert(vstd::utf8::is_ascii_chars("application/json"@));
    assert(vstd::utf8::is_ascii_chars("application/msgpack"@));
    vstd::utf8::is_ascii_chars_encode_utf8("application/json"@);
    vstd::utf8::is_ascii_chars_encode_utf8("application/msgpack"@);
    let a = text::bytes_of("application/json");
    let b = text::bytes_of("application/msgpack");
    assert forall|i: int| 0 <= i < a.len() implies 32 <= #[trigger] a[i] < 127 || a[i] == 9 by {
        assert("application/json"@[i] as u8 == a[i]);
    }
    assert forall|i: int| 0 <= i < b.len() implies 32 <= #[trigger] b[i] < 127 || b[i] == 9 by {
        assert("application/msgpack"@[i] as u8 == b[i]);
    }
}

/// A client gets the form whose media type it asks for, and JSON when it sends
/// no `Accept` header.
pub proof fn law_media_type_selects_its_form(a: Accept)
    ensures
        form_of(Some(text::bytes_of(media_type(a)))) == a,
        form_of(None) == Accept::Json,
{
    lemma_media_types_visible();
    reveal_strlit("application/json");
    reveal_strlit("application/msgpack");
    reveal_strlit("application/x-msgpack");
    assert(vstd::utf8::is_ascii_chars("application/json"@));
    assert(vstd::utf8::is_ascii_chars("application/msgpack"@));
    assert(vstd::utf8::is_ascii_chars("application/x-msgpack"@));
    vstd::utf8::is_ascii_chars_encode_utf8("application/json"@);
    vstd::utf8::is_ascii_chars_encode_utf8("application/msgpack"@);
    vstd::utf8::is_ascii_chars_encode_utf8("application/x-msgpack"@);
    let s = text::bytes_of("application/msgpack");
    assert(s.subrange(0, s.len() as int) =~= s);
    assert(wire::occurs_at(s, s, 0));
}

/// MessagePack is chosen when either of its names stands anywhere in the header,
/// and JSON when neither does, or when the header cannot be read.
pub proof fn law_form_is_chosen(a: Seq<u8>, b: Seq<u8>, s: Seq<u8>)
    ensures
        headers::is_visible(a + text::bytes_of("application/msgpack") + b) ==> form_of(
            Some(a + text::bytes_of("application/msgpack") + b),
        ) == Accept::MessagePack,
        headers::is_visible(a + text::bytes_of("application/x-msgpack") + b) ==> form_of(
            Some(a + text::bytes_of("application/x-msgpack") + b),
        ) == Accept::MessagePack,
        !headers::is_visible(s) ==> form_of(Some(s)) == Accept::Json,
        form_of(Some(s)) == Accept::MessagePack ==> (exists|i: int|
            wire::occurs_at(s, text::bytes_of("application/msgpack"), i)) || (exists|i: int|
            wire::occurs_at(s, text::bytes_of("application/x-msgpack"), i)),
{
    let x = text::bytes_of("application/msgpack");
    let y = text::bytes_of("application/x-msgpack");
    reveal_strlit("application/msgpack");
    reveal_strlit("application/x-msgpack");
    text::lemma_ascii_bytes("application/msgpack");
    text::lemma_ascii_bytes("application/x-msgpack");
    wire::law_occurrences(a, x, b, 0, 0);
    wire::law_occurrences(a, y, b, 0, 0);
}

/// The names of the forms.
pub proof fn law_forms_are_named()
    ensures
        media_type(Accept::Json) == "application/json",
        media_type(Accept::MessagePack) == "application/msgpack",
{
}

} // verus!
