//! The decisions of the ClickUp API client: how a response is classified,
//! how rate-limit headers are read and kept, how pages are collected and
//! which query a task page is asked with. The HTTP exchange itself is done by
//! the caller.
use vstd::prelude::*;
use crate::json::JsonValue;
use crate::text::{chars_of, decimal, parse_u64, parse_u64_str, push_decimal, push_seq, string_of};

verus! {

/// Errors that can occur when interacting with the ClickUp API.
#[derive(Debug)]
pub enum ClickUpError {
    /// Authentication failed (invalid or expired token).
    AuthError(String),
    /// The API returned an error response.
    ApiError {
        /// HTTP status code.
        status: u16,
        /// Error message from the API.
        message: String,
    },
    /// Rate limit exceeded.
    RateLimited {
        /// Seconds until the rate limit resets.
        retry_after_secs: u64,
    },
    /// A network-level error occurred (its message).
    NetworkError(String),
    /// Failed to deserialize an API response.
    DeserializationError {
        /// The serde error message.
        message: String,
        /// The endpoint path that produced the error.
        endpoint: String,
        /// A preview of the response body (first 200 chars).
        body_preview: String,
    },
    /// A configuration or credential error.
    ConfigError(String),
    /// The requested resource was not found.
    NotFound(String),
}

/// The message an error shows.
pub open spec fn error_text(e: ClickUpError) -> Seq<char> {
    match e {
        ClickUpError::AuthError(m) => "Authentication failed: "@ + m@,
        ClickUpError::ApiError { status, message } => "API error (status "@ + decimal(status as nat) + "): "@ + message@,
        ClickUpError::RateLimited { retry_after_secs } => "Rate limited. Retry after "@ + decimal(retry_after_secs as nat) + " seconds"@,
        ClickUpError::NetworkError(m) => "Network error: "@ + m@,
        ClickUpError::DeserializationError { message, endpoint, .. } => "Deserialization error at "@ + endpoint@ + ": "@ + message@,
        ClickUpError::ConfigError(m) => "Configuration error: "@ + m@,
        ClickUpError::NotFound(m) => "Not found: "@ + m@,
    }
}

/// Appends the characters of `s` to `out`.
fn push_str(out: &mut Vec<char>, s: &str)
    ensures
        final(out)@ == old(out)@ + s@,
{
    push_seq(out, &chars_of(s));
}

#[verifier::external_type_specification]
#[verifier::external_body]
pub struct ExSerdeJsonError(serde_json::Error);

/// Calls `<serde_json::Error as Display>::to_string`: the error's message.
/// Nothing is claimed of the text.
#[verifier::external_body]
fn serde_error_message(err: &serde_json::Error) -> String {
    err.to_string()
}

impl ClickUpError {
    /// The error's message, as its `Display` shows it.
    pub fn message(&self) -> (r: String)
        ensures
            r@ == error_text(*self),
    {
        let mut out: Vec<char> = Vec::new();
        match self {
            ClickUpError::AuthError(m) => {
                push_str(&mut out, "Authentication failed: ");
                push_str(&mut out, m.as_str());
            },
            ClickUpError::ApiError { status, message } => {
                push_str(&mut out, "API error (status ");
                push_decimal(&mut out, *status as u64);
                push_str(&mut out, "): ");
                push_str(&mut out, message.as_str());
            },
            ClickUpError::RateLimited { retry_after_secs } => {
                push_str(&mut out, "Rate limited. Retry after ");
                push_decimal(&mut out, *retry_after_secs);
                push_str(&mut out, " seconds");
            },
            ClickUpError::NetworkError(m) => {
                push_str(&mut out, "Network error: ");
                push_str(&mut out, m.as_str());
            },
            ClickUpError::DeserializationError { message, endpoint, .. } => {
                push_str(&mut out, "Deserialization error at ");
                push_str(&mut out, endpoint.as_str());
                push_str(&mut out, ": ");
                push_str(&mut out, message.as_str());
            },
            ClickUpError::ConfigError(m) => {
                push_str(&mut out, "Configuration error: ");
                push_str(&mut out, m.as_str());
            },
            ClickUpError::NotFound(m) => {
                push_str(&mut out, "Not found: ");
                push_str(&mut out, m.as_str());
            },
        }
        string_of(&out)
    }

    /// Creates a `DeserializationError` from a `serde_json::Error` without endpoint context.
    ///
    /// Use this when deserializing values that have already been fetched
    /// (e.g., extracting nested fields from a raw `serde_json::Value`).
    pub fn deserialization(err: serde_json::Error) -> (r: Self)
        ensures
            r matches ClickUpError::DeserializationError { endpoint, body_preview, .. }
                && endpoint@.len() == 0 && body_preview@.len() == 0,
    {
        ClickUpError::DeserializationError {
            message: serde_error_message(&err),
            endpoint: String::new(),
            body_preview: String::new(),
        }
    }
}

/// Shape of ClickUp API error responses.
#[derive(Debug)]
pub struct ApiErrorBody {
    /// The error message.
    pub err: Option<String>,
    /// The error code (`ECODE`).
    pub ecode: Option<String>,
}

/// The text of an optional string, empty when absent.
pub open spec fn or_empty(s: Option<String>) -> Seq<char> {
    match s {
        Some(t) => t@,
        None => Seq::empty(),
    }
}

/// The message of an error response: the `err` text, followed by the `ECODE`
/// in parentheses when there is one; the raw body when it is no error object.
pub open spec fn api_message(body: Seq<char>, parsed: Option<ApiErrorBody>) -> Seq<char> {
    match parsed {
        Some(b) => if or_empty(b.ecode).len() == 0 {
            or_empty(b.err)
        } else {
            or_empty(b.err) + " ("@ + or_empty(b.ecode) + ")"@
        },
        None => body,
    }
}

/// The `err` text of an error response, or `fallback`.
pub open spec fn err_or(parsed: Option<ApiErrorBody>, fallback: Seq<char>) -> Seq<char> {
    match parsed {
        Some(b) => match b.err {
            Some(e) => e@,
            None => fallback,
        },
        None => fallback,
    }
}

/// The seconds to wait after a 429 response: until the Unix time in the
/// `X-RateLimit-Reset` header's text `reset` (none when it has passed), or 60
/// when there is no such header or it is no number.
pub open spec fn retry_after(reset: Option<Seq<char>>, now_secs: u64) -> u64 {
    match reset {
        Some(t) => match parse_u64(t) {
            Some(ts) => if ts > now_secs { (ts - now_secs) as u64 } else { 0 },
            None => 60,
        },
        None => 60,
    }
}

/// Whether `r` is the error for a failure status other than 429.
pub open spec fn error_for(status: u16, body: Seq<char>, parsed: Option<ApiErrorBody>, r: ClickUpError) -> bool {
    if status == 401 {
        r matches ClickUpError::AuthError(m) && m@ == err_or(parsed, "unauthorized"@)
    } else if status == 404 {
        r matches ClickUpError::NotFound(m) && m@ == err_or(parsed, "resource not found"@)
    } else {
        r matches ClickUpError::ApiError { status: s, message } && s == status && message@ == api_message(body, parsed)
    }
}

/// The text of an optional string, empty when absent.
fn text_or_empty(s: &Option<String>) -> (r: Vec<char>)
    ensures
        r@ == or_empty(*s),
{
    match s {
        Some(t) => chars_of(t.as_str()),
        None => Vec::new(),
    }
}

/// Processes an HTTP response, mapping status codes to error variants.
///
/// `status` is the HTTP status, `body` the response body, `parsed` the body
/// read as an error object (`None` when it is not one), `reset_header` the
/// text of the `X-RateLimit-Reset` header and `now_secs` the current Unix
/// time. `Ok` means a success status, whose body the caller deserializes.
pub fn handle_response(status: u16, body: &str, parsed: Option<ApiErrorBody>, reset_header: Option<&str>,
    now_secs: u64) -> (r: Result<(), ClickUpError>)
    ensures
        200 <= status <= 299 <==> r is Ok,
        status == 429 ==> r == Err::<(), ClickUpError>(ClickUpError::RateLimited {
            retry_after_secs: retry_after(match reset_header { Some(t) => Some(t@), None => None }, now_secs) }),
        !(200 <= status <= 299) && status != 429 ==> (r matches Err(e) && error_for(status, body@, parsed, e)),
{
    if 200 <= status && status <= 299 {
        return Ok(());
    }
    if status == 429 {
        let retry_after_secs: u64 = match reset_header {
            Some(t) => match parse_u64_str(t) {
                Some(ts) => if ts > now_secs { ts - now_secs } else { 0 },
                None => 60,
            },
            None => 60,
        };
        return Err(ClickUpError::RateLimited { retry_after_secs });
    }
    if status == 401 || status == 404 {
        let fallback: &str = if status == 401 { "unauthorized" } else { "resource not found" };
        let message = match parsed {
            Some(b) => match b.err {
                Some(e) => e,
                None => string_of(&chars_of(fallback)),
            },
            None => string_of(&chars_of(fallback)),
        };
        return if status == 401 { Err(ClickUpError::AuthError(message)) } else { Err(ClickUpError::NotFound(message)) };
    }
    let message = match &parsed {
        Some(b) => {
            let err = text_or_empty(&b.err);
            let ecode = text_or_empty(&b.ecode);
            if ecode.len() == 0 {
                string_of(&err)
            } else {
                let mut out = err;
                push_str(&mut out, " (");
                push_seq(&mut out, &ecode);
                push_str(&mut out, ")");
                string_of(&out)
            }
        },
        None => string_of(&chars_of(body)),
    };
    Err(ClickUpError::ApiError { status, message })
}

/// Reads the rate-limit headers: both `X-RateLimit-Remaining` and
/// `X-RateLimit-Reset` as unsigned integers, or `None` unless both are.
pub fn rate_limit_headers(remaining: Option<&str>, reset: Option<&str>) -> (r: Option<(u64, u64)>)
    ensures
        r == (match (remaining, reset) {
            (Some(a), Some(b)) => match (parse_u64(a@), parse_u64(b@)) {
                (Some(x), Some(y)) => Some((x, y)),
                _ => None,
            },
            _ => None,
        }),
{
    match (remaining, reset) {
        (Some(a), Some(b)) => match (parse_u64_str(a), parse_u64_str(b)) {
            (Some(x), Some(y)) => Some((x, y)),
            _ => None,
        },
        _ => None,
    }
}

/// The body preview of `s`: its first 200 characters, or all of it when it is shorter.
pub open spec fn body_preview_of(s: Seq<char>) -> Seq<char> {
    if s.len() <= 200 { s } else { s.subrange(0, 200) }
}

/// The error for a success response whose body could not be deserialized:
/// the serde message, the endpoint, and a preview of the body: its first 200
/// characters.
pub fn deserialization_failure(message: String, endpoint: &str, body: &str) -> (r: ClickUpError)
    ensures
        r matches ClickUpError::DeserializationError { message: m, endpoint: e, body_preview: p }
            && m@ == message@ && e@ == endpoint@ && p@ == body_preview_of(body@),
{
    let cs = chars_of(body);
    let mut out: Vec<char> = Vec::new();
    let mut taken: usize = 0;
    while taken < cs.len() && taken < 200
        invariant
            cs@ == body@,
            taken <= cs.len(),
            taken <= 200,
            out@ == body@.subrange(0, taken as int),
        decreases cs.len() - taken,
    {
        out.push(cs[taken]);
        taken = taken + 1;
        proof { assert(out@ =~= body@.subrange(0, taken as int)); }
    }
    proof {
        if body@.len() <= 200 {
            assert(out@ =~= body@);
        }
    }
    ClickUpError::DeserializationError {
        message,
        endpoint: string_of(&chars_of(endpoint)),
        body_preview: string_of(&out),
    }
}

} // verus!
