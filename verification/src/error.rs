//! The library's error type, and how each error is answered over HTTP.
use vstd::prelude::*;
use vstd::string::*;

use crate::text::{concat, contains, contains_str};

verus! {

/// Every failure the backend reports. Errors that come from outside components carry the
/// text that component gave for them.
#[derive(Debug)]
pub enum AppError {
    Db(String),
    AddrParse(String),
    Io(String),
    Config(String),
    Tracing(String),
    TracingFilter(String),
    NotFound(&'static str),
    Validation(String),
    Unauthorized,
    Forbidden,
    RateLimited,
    RateLimitBackend(String),
    Plugin(String),
    PasswordHash(String),
    Token(String),
}

pub type AppResult<T> = Result<T, AppError>;

/// The `error` member of an error response.
#[derive(Clone, Debug)]
pub struct ErrorMessage {
    pub code: &'static str,
    pub message: String,
}

/// The JSON body of an error response.
#[derive(Clone, Debug)]
pub struct ErrorBody {
    pub error: ErrorMessage,
}

/// The HTTP status that answers an error.
pub open spec fn status_of(e: AppError) -> u16 {
    match e {
        AppError::NotFound(_) => 404,
        AppError::Validation(_) => 422,
        AppError::Unauthorized => 401,
        AppError::Forbidden => 403,
        AppError::RateLimited => 429,
        AppError::RateLimitBackend(_) => 503,
        _ => 500,
    }
}

/// The machine-readable code that answers an error.
pub open spec fn code_of(e: AppError) -> Seq<char> {
    match e {
        AppError::NotFound(_) => "not_found"@,
        AppError::Validation(_) => "validation_error"@,
        AppError::Unauthorized => "unauthorized"@,
        AppError::Forbidden => "forbidden"@,
        AppError::RateLimited => "rate_limited"@,
        AppError::RateLimitBackend(_) => "rate_limit_backend"@,
        AppError::Plugin(_) => "plugin_error"@,
        _ => "internal_error"@,
    }
}

/// The human-readable text of an error.
pub open spec fn message_of(e: AppError) -> Seq<char> {
    match e {
        AppError::Db(m) => "database error: "@ + m@,
        AppError::AddrParse(m) => "http address error: "@ + m@,
        AppError::Io(m) => "io error: "@ + m@,
        AppError::Config(m) => "config error: "@ + m@,
        AppError::Tracing(m) => "tracing setup error: "@ + m@,
        AppError::TracingFilter(m) => "tracing filter error: "@ + m@,
        AppError::NotFound(m) => "not found: "@ + m@,
        AppError::Validation(m) => "validation error: "@ + m@,
        AppError::Unauthorized => "unauthorized"@,
        AppError::Forbidden => "forbidden"@,
        AppError::RateLimited => "rate limit exceeded"@,
        AppError::RateLimitBackend(m) => "rate limit backend error: "@ + m@,
        AppError::Plugin(m) => "plugin error: "@ + m@,
        AppError::PasswordHash(m) => "password hashing error: "@ + m@,
        AppError::Token(m) => "token error: "@ + m@,
    }
}

impl AppError {
    /// The HTTP status code of the response to this error.
    pub fn status_code(&self) -> (s: u16)
        ensures
            s == status_of(*self),
    {
        match self {
            AppError::NotFound(_) => 404,
            AppError::Validation(_) => 422,
            AppError::Unauthorized => 401,
            AppError::Forbidden => 403,
            AppError::RateLimited => 429,
            AppError::RateLimitBackend(_) => 503,
            _ => 500,
        }
    }

    /// The machine-readable code of the response to this error.
    pub fn code(&self) -> (c: &'static str)
        ensures
            c@ == code_of(*self),
    {
        match self {
            AppError::NotFound(_) => "not_found",
            AppError::Validation(_) => "validation_error",
            AppError::Unauthorized => "unauthorized",
            AppError::Forbidden => "forbidden",
            AppError::RateLimited => "rate_limited",
            AppError::RateLimitBackend(_) => "rate_limit_backend",
            AppError::Plugin(_) => "plugin_error",
            _ => "internal_error",
        }
    }

    /// The text of this error (what `Display` writes for it).
    pub fn message(&self) -> (m: String)
        ensures
            m@ == message_of(*self),
    {
        match self {
            AppError::Db(m) => concat("database error: ", m.as_str()),
            AppError::AddrParse(m) => concat("http address error: ", m.as_str()),
            AppError::Io(m) => concat("io error: ", m.as_str()),
            AppError::Config(m) => concat("config error: ", m.as_str()),
            AppError::Tracing(m) => concat("tracing setup error: ", m.as_str()),
            AppError::TracingFilter(m) => concat("tracing filter error: ", m.as_str()),
            AppError::NotFound(m) => concat("not found: ", m),
            AppError::Validation(m) => concat("validation error: ", m.as_str()),
            AppError::Unauthorized => "unauthorized".to_owned(),
            AppError::Forbidden => "forbidden".to_owned(),
            AppError::RateLimited => "rate limit exceeded".to_owned(),
            AppError::RateLimitBackend(m) => concat("rate limit backend error: ", m.as_str()),
            AppError::Plugin(m) => concat("plugin error: ", m.as_str()),
            AppError::PasswordHash(m) => concat("password hashing error: ", m.as_str()),
            AppError::Token(m) => concat("token error: ", m.as_str()),
        }
    }

    /// The status and JSON body of the HTTP response that answers this error.
    pub fn response_parts(&self) -> (r: (u16, ErrorBody))
        ensures
            r.0 == status_of(*self),
            r.1.error.code@ == code_of(*self),
            r.1.error.message@ == message_of(*self),
    {
        (self.status_code(), ErrorBody { error: ErrorMessage { code: self.code(), message: self.message() } })
    }
}

/// `str::to_lowercase`: the Unicode lowercase mapping of `text`.
pub uninterp spec fn lowercase_text(text: Seq<char>) -> Seq<char>;

/// `str::to_lowercase`.
/// The claim: the result is the function `lowercase_text` of the argument.
#[verifier::external_body]
fn to_lowercase(text: &str) -> (out: String)
    ensures
        out@ == lowercase_text(text@),
{
    text.to_lowercase()
}

/// Whether a database error's text tells of a broken uniqueness constraint.
pub open spec fn names_unique_violation(err_text: Seq<char>) -> bool {
    contains(lowercase_text(err_text), "unique"@) || contains(lowercase_text(err_text), "duplicate"@)
}

/// A database error whose text (in any case) mentions `unique` or `duplicate` becomes a
/// validation error with `message`; any other stays a database error.
pub fn validation_on_unique(err_text: String, message: String) -> (e: AppError)
    ensures
        names_unique_violation(err_text@) ==> e == AppError::Validation(message),
        !names_unique_violation(err_text@) ==> e == AppError::Db(err_text),
{
    let lower = to_lowercase(err_text.as_str());
    if contains_str(lower.as_str(), "unique") || contains_str(lower.as_str(), "duplicate") {
        AppError::Validation(message)
    } else {
        AppError::Db(err_text)
    }
}

} // verus!
