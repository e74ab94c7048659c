//! What the interface answers when something is wrong.
use vstd::prelude::*;

verus! {

/// A request that cannot be served.
#[derive(Debug)]
pub enum ApiError {
    MissingAuth,
    InvalidToken,
    RateLimited,
    TickerNotFound(String),
    BookNotAvailable,
    /// The snapshot store failed, with its own message.
    Redis(String),
    BadRequest(&'static str),
    Internal(&'static str),
}

/// The HTTP status of an error.
pub open spec fn status_of(e: ApiError) -> u16 {
    match e {
        ApiError::MissingAuth | ApiError::InvalidToken => 401,
        ApiError::RateLimited => 429,
        ApiError::TickerNotFound(_) | ApiError::BookNotAvailable => 404,
        ApiError::BadRequest(_) => 400,
        ApiError::Redis(_) | ApiError::Internal(_) => 500,
    }
}

/// The machine-readable name of an error.
pub open spec fn code_of(e: ApiError) -> &'static str {
    match e {
        ApiError::MissingAuth => "missing_auth",
        ApiError::InvalidToken => "invalid_token",
        ApiError::RateLimited => "rate_limited",
        ApiError::TickerNotFound(_) => "ticker_not_found",
        ApiError::BookNotAvailable => "book_not_available",
        ApiError::Redis(_) | ApiError::Internal(_) => "internal",
        ApiError::BadRequest(_) => "bad_request",
    }
}

/// What `Debug` of a string shows: its text in quotes, with escapes.
pub uninterp spec fn quoted(s: Seq<char>) -> Seq<char>;

/// `format!` with `Debug` of a string.
#[verifier::external_body]
fn quote(s: &str) -> (r: String)
    ensures
        r@ == quoted(s@),
{
    format!("{s:?}")
}

/// The message of an error.
pub open spec fn message_of(e: ApiError) -> Seq<char> {
    match e {
        ApiError::MissingAuth => "missing Authorization header"@,
        ApiError::InvalidToken => "invalid token"@,
        ApiError::RateLimited => "rate limit exceeded"@,
        ApiError::TickerNotFound(t) => "ticker "@ + quoted(t@) + " not known"@,
        ApiError::BookNotAvailable => "book not available for this market"@,
        ApiError::Redis(m) => "Redis error: "@ + m@,
        ApiError::BadRequest(m) => "invalid request: "@ + m@,
        ApiError::Internal(m) => "internal error: "@ + m@,
    }
}

impl ApiError {
    /// The HTTP status of the error.
    pub fn status(&self) -> (r: u16)
        ensures
            r == status_of(*self),
    {
        match self {
            ApiError::MissingAuth | ApiError::InvalidToken => 401,
            ApiError::RateLimited => 429,
            ApiError::TickerNotFound(_) | ApiError::BookNotAvailable => 404,
            ApiError::BadRequest(_) => 400,
            ApiError::Redis(_) | ApiError::Internal(_) => 500,
        }
    }

    /// The machine-readable name of the error.
    pub fn code(&self) -> (r: &'static str)
        ensures
            r == code_of(*self),
    {
        match self {
            ApiError::MissingAuth => "missing_auth",
            ApiError::InvalidToken => "invalid_token",
            ApiError::RateLimited => "rate_limited",
            ApiError::TickerNotFound(_) => "ticker_not_found",
            ApiError::BookNotAvailable => "book_not_available",
            ApiError::Redis(_) | ApiError::Internal(_) => "internal",
            ApiError::BadRequest(_) => "bad_request",
        }
    }

    /// The message of the error.
    pub fn message(&self) -> (r: String)
        ensures
            r@ == message_of(*self),
    {
        match self {
            ApiError::MissingAuth => "missing Authorization header".to_owned(),
            ApiError::InvalidToken => "invalid token".to_owned(),
            ApiError::RateLimited => "rate limit exceeded".to_owned(),
            ApiError::TickerNotFound(t) => "ticker ".to_owned().concat(
                quote(t.as_str()).as_str(),
            ).concat(" not known"),
            ApiError::BookNotAvailable => "book not available for this market".to_owned(),
            ApiError::Redis(m) => "Redis error: ".to_owned().concat(m.as_str()),
            ApiError::BadRequest(m) => "invalid request: ".to_owned().concat(m),
            ApiError::Internal(m) => "internal error: ".to_owned().concat(m),
        }
    }
}

/// Status and name agree: errors of one name have one status.
pub proof fn law_code_determines_status(a: ApiError, b: ApiError)
    requires
        code_of(a)@ == code_of(b)@,
    ensures
        status_of(a) == status_of(b),
{
    reveal_strlit("missing_auth");
    reveal_strlit("invalid_token");
    reveal_strlit("rate_limited");
    reveal_strlit("ticker_not_found");
    reveal_strlit("book_not_available");
    reveal_strlit("internal");
    reveal_strlit("bad_request");
    let x = code_of(a)@;
    let y = code_of(b)@;
    assert(x[0] == y[0] && x.len() == y.len());
}

/// Status and code of each error.
pub proof fn law_errors_are_answered(text: String, fixed: &'static str)
    ensures
        status_of(ApiError::MissingAuth) == 401,
        status_of(ApiError::InvalidToken) == 401,
        status_of(ApiError::RateLimited) == 429,
        status_of(ApiError::TickerNotFound(text)) == 404,
        status_of(ApiError::BookNotAvailable) == 404,
        status_of(ApiError::BadRequest(fixed)) == 400,
        status_of(ApiError::Redis(text)) == 500,
        status_of(ApiError::Internal(fixed)) == 500,
        code_of(ApiError::MissingAuth) == "missing_auth",
        code_of(ApiError::InvalidToken) == "invalid_token",
        code_of(ApiError::RateLimited) == "rate_limited",
        code_of(ApiError::TickerNotFound(text)) == "ticker_not_found",
        code_of(ApiError::BookNotAvailable) == "book_not_available",
        code_of(ApiError::BadRequest(fixed)) == "bad_request",
        code_of(ApiError::Redis(text)) == "internal",
        code_of(ApiError::Internal(fixed)) == "internal",
{
}

/// How errors are worded.
pub proof fn law_errors_are_worded(text: String, fixed: &'static str)
    ensures
        message_of(ApiError::MissingAuth) == "missing Authorization header"@,
        message_of(ApiError::InvalidToken) == "invalid token"@,
        message_of(ApiError::RateLimited) == "rate limit exceeded"@,
        message_of(ApiError::TickerNotFound(text)) == "ticker "@ + quoted(text@) + " not known"@,
        message_of(ApiError::BookNotAvailable) == "book not available for this market"@,
        message_of(ApiError::Redis(text)) == "Redis error: "@ + text@,
        message_of(ApiError::BadRequest(fixed)) == "invalid request: "@ + fixed@,
        message_of(ApiError::Internal(fixed)) == "internal error: "@ + fixed@,
{
}

} // verus!
