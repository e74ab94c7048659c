//! Request headers, as far as the interface reads them.
use crate::text;
use axum::http::{HeaderMap, HeaderValue};
use vstd::prelude::*;

verus! {

/// The header map of the `http` crate.
#[verifier::external_type_specification]
#[verifier::external_body]
#[verifier::reject_recursive_types(T)]
pub struct ExHeaderMap<T>(axum::http::HeaderMap<T>);

/// A header's value, of the `http` crate.
#[verifier::external_type_specification]
#[verifier::external_body]
pub struct ExHeaderValue(axum::http::HeaderValue);

/// The bytes of the first value of each header, by every spelling of its name
/// that finds it.
pub uninterp spec fn first_values(h: HeaderMap<HeaderValue>) -> Map<Seq<char>, Seq<u8>>;

/// The bytes of a header's value.
pub uninterp spec fn value_bytes(v: HeaderValue) -> Seq<u8>;

/// Nothing but visible ASCII characters, spaces and tabs.
pub open spec fn is_visible(s: Seq<u8>) -> bool {
    forall|i: int| 0 <= i < s.len() ==> 32 <= #[trigger] s[i] < 127 || s[i] == 9
}

/// `HeaderMap::get`: the first value of a header.
#[verifier::external_body]
pub(crate) fn find<'a>(h: &'a HeaderMap<HeaderValue>, name: &str) -> (r: Option<&'a HeaderValue>)
    ensures
        match r {
            Some(v) => first_values(*h).contains_key(name@) && value_bytes(*v) == first_values(
                *h,
            )[name@],
            None => !first_values(*h).contains_key(name@),
        },
{
    h.get(name)
}

/// `HeaderValue::to_str`: the value as text, when all of it is visible ASCII.
#[verifier::external_body]
pub(crate) fn as_text(v: &HeaderValue) -> (r: Option<&str>)
    ensures
        match r {
            Some(s) => is_visible(value_bytes(*v)) && text::bytes_of(s) == value_bytes(*v),
            None => !is_visible(value_bytes(*v)),
        },
{
    v.to_str().ok()
}

/// `HeaderValue::from_static`: a value of fixed text. It panics on anything but
/// visible ASCII.
#[verifier::external_body]
pub(crate) fn fixed_value(s: &'static str) -> (r: HeaderValue)
    requires
        is_visible(text::bytes_of(s)),
    ensures
        value_bytes(r) == text::bytes_of(s),
{
    HeaderValue::from_static(s)
}

/// Which bytes are visible: those from the space to the tilde, and the tab.
pub proof fn law_visible_bytes(s: Seq<u8>, b: u8)
    ensures
        is_visible(seq![b]) <==> 32 <= b <= 126 || b == 9,
        is_visible(s.push(b)) <==> is_visible(s) && is_visible(seq![b]),
{
    assert(seq![b][0] == b);
    let t = s.push(b);
    assert(t[s.len() as int] == b);
    if is_visible(t) {
        assert forall|i: int| 0 <= i < s.len() implies 32 <= #[trigger] s[i] < 127 || s[i] == 9 by {
            assert(t[i] == s[i]);
        }
    }
}

} // verus!
