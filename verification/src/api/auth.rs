//! Bearer tokens.
use crate::api::config::ApiConfig;
use crate::api::error::ApiError;
use crate::api::headers;
use crate::tables;
use crate::text;
use axum::http::{HeaderMap, HeaderValue};
use vstd::prelude::*;
use vstd::utf8;

verus! {

/// The token in the text of an `Authorization` header: what follows `Bearer `
/// or `bearer `, without white space around it.
pub open spec fn bearer_token(raw: Seq<char>) -> Option<Seq<char>> {
    let t = text::trimmed(raw);
    let rest = if text::has_prefix(t, "Bearer "@) {
        Some(t.skip("Bearer "@.len() as int))
    } else if text::has_prefix(t, "bearer "@) {
        Some(t.skip("bearer "@.len() as int))
    } else {
        None
    };
    match rest {
        Some(r) => if text::trimmed(r).len() > 0 {
            Some(text::trimmed(r))
        } else {
            None
        },
        None => None,
    }
}

/// The value of the `Authorization` header.
pub open spec fn auth_header(h: HeaderMap<HeaderValue>) -> Option<Seq<u8>> {
    headers::first_values(h).get("authorization"@)
}

/// The token in the bytes of an `Authorization` header.
pub open spec fn token_in(value: Seq<u8>) -> Option<Seq<char>> {
    if headers::is_visible(value) {
        bearer_token(utf8::decode_utf8(value))
    } else {
        None
    }
}

/// The token in the text of an `Authorization` header.
pub fn parse_bearer(raw: &str) -> (r: Option<String>)
    ensures
        match r {
            Some(t) => bearer_token(raw@) == Some(t@),
            None => bearer_token(raw@) is None,
        },
{
    let trimmed = text::trim(raw);
    let rest: &str = match text::strip_prefix(trimmed, "Bearer ") {
        Some(rest) => rest,
        None => match text::strip_prefix(trimmed, "bearer ") {
            Some(rest) => rest,
            None => {
                return None;
            },
        },
    };
    let token = text::trim(rest);
    if token.unicode_len() == 0 {
        return None;
    }
    Some(token.to_owned())
}

/// The token that a request carries.
pub fn extract_bearer(headers: &HeaderMap<HeaderValue>) -> (r: Result<String, ApiError>)
    ensures
        match auth_header(*headers) {
            None => r matches Err(e) && e is MissingAuth,
            Some(v) => match token_in(v) {
                Some(t) => r matches Ok(token) && token@ == t,
                None => r matches Err(e) && e is InvalidToken,
            },
        },
{
    match headers::find(headers, "authorization") {
        None => Err(ApiError::MissingAuth),
        Some(value) => match headers::as_text(value) {
            None => Err(ApiError::InvalidToken),
            Some(raw) => {
                proof {
                    utf8::encode_utf8_decode_utf8(raw@);
                }
                match parse_bearer(raw) {
                    Some(token) => Ok(token),
                    None => Err(ApiError::InvalidToken),
                }
            },
        },
    }
}

/// Who may ask: the token of a request, when it is a valid one.
pub open spec fn admitted(value: Option<Seq<u8>>, valid: Set<Seq<char>>) -> Option<Seq<char>> {
    match value {
        Some(v) => match token_in(v) {
            Some(t) => if valid.contains(t) {
                Some(t)
            } else {
                None
            },
            None => None,
        },
        None => None,
    }
}

/// The token that a request carries, when it is a valid one.
pub fn require_token(headers: &HeaderMap<HeaderValue>, cfg: &ApiConfig) -> (r: Result<
    String,
    ApiError,
>)
    ensures
        match r {
            Ok(token) => admitted(auth_header(*headers), tables::texts(cfg.valid_tokens)) == Some(
                token@,
            ),
            Err(e) => {
                &&& admitted(auth_header(*headers), tables::texts(cfg.valid_tokens)) is None
                &&& if auth_header(*headers) is None {
                    e is MissingAuth
                } else {
                    e is InvalidToken
                }
            },
        },
{
    let token = extract_bearer(headers)?;
    if !tables::has_text(&cfg.valid_tokens, token.as_str()) {
        return Err(ApiError::InvalidToken);
    }
    Ok(token)
}

/// Only valid tokens are let in, and none is when there are no valid ones.
pub proof fn law_only_valid_tokens_pass(value: Option<Seq<u8>>, valid: Set<Seq<char>>)
    ensures
        admitted(value, valid) matches Some(t) ==> valid.contains(t) && t.len() > 0,
        valid == Set::<Seq<char>>::empty() ==> admitted(value, valid) is None,
{
}

/// The token stands behind `Bearer` or `bearer` and a space; white space around
/// it and around the whole is taken off.
pub proof fn law_token_stands_behind_the_scheme(
    front: Seq<char>,
    small: bool,
    between: Seq<char>,
    token: Seq<char>,
    back: Seq<char>,
)
    requires
        forall|i: int| 0 <= i < front.len() ==> text::is_white(#[trigger] front[i]),
        forall|i: int| 0 <= i < between.len() ==> text::is_white(#[trigger] between[i]),
        forall|i: int| 0 <= i < back.len() ==> text::is_white(#[trigger] back[i]),
        token.len() > 0,
        !text::is_white(token[0]) && !text::is_white(token.last()),
    ensures
        bearer_token(
            front + (if small {
                "bearer "@
            } else {
                "Bearer "@
            } + between + token) + back,
        ) == Some(token),
{
    reveal_strlit("Bearer ");
    reveal_strlit("bearer ");
    let scheme = if small {
        "bearer "@
    } else {
        "Bearer "@
    };
    let s = scheme + between + token;
    assert(s[0] == scheme[0]);
    assert(s.last() == token.last());
    text::law_trimming_keeps_what_is_between(front, s, back);
    assert(s =~= scheme + (between + token));
    text::law_prefixes(scheme, between + token, s);
    assert(s.skip(scheme.len() as int) =~= between + token);
    assert(small ==> !text::has_prefix(s, "Bearer "@)) by {
        if small && text::has_prefix(s, "Bearer "@) {
            assert(s.take(7)[0] == s[0]);
        }
    }
    text::law_trimming_keeps_what_is_between(between, token, Seq::empty());
    assert(between + token + Seq::<char>::empty() =~= between + token);
}

/// Any other beginning holds no token.
pub proof fn law_no_scheme_no_token(s: Seq<char>)
    requires
        s.len() > 0,
        s[0] != 'B' && s[0] != 'b',
        !text::is_white(s[0]) && !text::is_white(s.last()),
    ensures
        bearer_token(s) is None,
{
    reveal_strlit("Bearer ");
    reveal_strlit("bearer ");
    let e = Seq::<char>::empty();
    text::law_trimming_keeps_what_is_between(e, s, e);
    assert(e + s + e =~= s);
    if text::has_prefix(s, "Bearer "@) {
        assert(s.take(7)[0] == s[0]);
    }
    if text::has_prefix(s, "bearer "@) {
        assert(s.take(7)[0] == s[0]);
    }
}

/// A request passes with the token that its header holds when that token is
/// valid, and not otherwise.
pub proof fn law_who_passes(value: Seq<u8>, valid: Set<Seq<char>>, token: Seq<char>)
    ensures
        admitted(None, valid) is None,
        admitted(Some(value), valid) == Some(token) <==> token_in(value) == Some(token)
            && valid.contains(token),
        headers::is_visible(value) ==> token_in(value) == bearer_token(utf8::decode_utf8(value)),
        !headers::is_visible(value) ==> token_in(value) is None,
{
}

/// Which error a request without a valid token gets.
pub proof fn law_tokens_are_required(
    headers: HeaderMap<HeaderValue>,
    cfg: ApiConfig,
    found: Result<String, ApiError>,
    r: Result<String, ApiError>,
)
    requires
        call_ensures(extract_bearer, (&headers,), found),
        call_ensures(require_token, (&headers, &cfg), r),
    ensures
        auth_header(headers) is None ==> found is Err && found->Err_0 is MissingAuth && r is Err
            && r->Err_0 is MissingAuth,
        auth_header(headers) matches Some(v) ==> (token_in(v) is None ==> found is Err
            && found->Err_0 is InvalidToken && r is Err && r->Err_0 is InvalidToken),
        auth_header(headers) matches Some(v) ==> (token_in(v) matches Some(t) ==> found is Ok
            && found->Ok_0@ == t && (r is Ok <==> tables::texts(cfg.valid_tokens).contains(t))),
        r matches Ok(token) ==> tables::texts(cfg.valid_tokens).contains(token@),
        r matches Err(e) ==> e is MissingAuth || e is InvalidToken,
{
}

} // verus!
