//! Connection handling: which I/O errors a server may ignore, and request routing.
use vstd::prelude::*;

use crate::http::find_char;
use crate::text::{chars_of, slice_chars, starts_with, starts_with_str};

verus! {

/// `std::io::Error`, carried through connection handling.
#[verifier::external_type_specification]
#[verifier::external_body]
pub struct ExIoError(std::io::Error);

/// The kinds of I/O failure that connection handling tells apart.
#[derive(Debug, Clone, Copy, PartialEq, Eq, Structural)]
pub enum ConnectionErrorKind {
    BrokenPipe,
    ConnectionReset,
    ConnectionAborted,
    UnexpectedEof,
    Other,
}

/// The kind that `std::io::Error::kind` reports for an error, sorted into the classes above.
pub uninterp spec fn io_error_kind(error: std::io::Error) -> ConnectionErrorKind;

/// Calls `std::io::Error::kind` and sorts the result into a `ConnectionErrorKind`:
/// each of the four named `std::io::ErrorKind` variants maps to its namesake, every other kind
/// to `Other`. Trusted: the contract only names the result after the error it is taken from.
#[verifier::external_body]
fn error_kind(error: &std::io::Error) -> (kind: ConnectionErrorKind)
    ensures
        kind == io_error_kind(*error),
{
    match error.kind() {
        std::io::ErrorKind::BrokenPipe => ConnectionErrorKind::BrokenPipe,
        std::io::ErrorKind::ConnectionReset => ConnectionErrorKind::ConnectionReset,
        std::io::ErrorKind::ConnectionAborted => ConnectionErrorKind::ConnectionAborted,
        std::io::ErrorKind::UnexpectedEof => ConnectionErrorKind::UnexpectedEof,
        _ => ConnectionErrorKind::Other,
    }
}

/// Broken pipes, resets, aborts and unexpected ends of input are ignorable.
pub open spec fn spec_is_ignorable_kind(kind: ConnectionErrorKind) -> bool {
    kind != ConnectionErrorKind::Other
}

/// Whether a connection error is one the server logs and moves past.
pub fn is_ignorable_connection_error(error: &std::io::Error) -> (r: bool)
    ensures
        r == spec_is_ignorable_kind(io_error_kind(*error)),
{
    let kind = error_kind(error);
    match kind {
        ConnectionErrorKind::Other => false,
        _ => true,
    }
}

/// The outcome of a failed accept: ignorable errors are passed over, others are returned.
pub fn handle_accept_error(error: std::io::Error) -> (r: Result<(), std::io::Error>)
    ensures
        spec_is_ignorable_kind(io_error_kind(error)) ==> r is Ok,
        !spec_is_ignorable_kind(io_error_kind(error)) ==> r == Err::<(), std::io::Error>(error),
{
    if is_ignorable_connection_error(&error) {
        Ok(())
    } else {
        Err(error)
    }
}

/// What a request line asks for.
#[derive(Debug, Clone, Copy, PartialEq, Eq, Structural)]
pub enum Route {
    /// `OPTIONS /api/evaluate`: the CORS preflight.
    EvaluateOptions,
    /// `GET /health`.
    Health,
    /// `GET /api/scenarios`.
    Scenarios,
    /// `POST /api/evaluate`.
    Evaluate,
    /// `GET /`.
    Index,
    /// `GET /app.js`.
    AppJs,
    /// `GET /styles.css`.
    Styles,
    /// `GET /favicon.svg` or `GET /assets/sendsure-mark.svg`.
    Mark,
    /// `GET /assets/sendsure-logo-horizontal.svg`.
    LogoHorizontal,
    /// Anything else.
    NotFound,
}

/// `l` without one trailing carriage return.
pub open spec fn strip_cr(l: Seq<char>) -> Seq<char> {
    if l.len() > 0 && l.last() == '\r' {
        l.drop_last()
    } else {
        l
    }
}

/// The first line of a request head, as `str::lines` gives it (empty for an empty head).
pub open spec fn spec_first_line(text: Seq<char>) -> Seq<char> {
    match find_char(text, '\n') {
        Some(n) => strip_cr(text.subrange(0, n)),
        None => text,
    }
}

/// The route of a request line, by the first matching prefix.
pub open spec fn spec_route(line: Seq<char>) -> Route {
    if starts_with(line, "OPTIONS /api/evaluate "@) {
        Route::EvaluateOptions
    } else if starts_with(line, "GET /health "@) {
        Route::Health
    } else if starts_with(line, "GET /api/scenarios "@) {
        Route::Scenarios
    } else if starts_with(line, "POST /api/evaluate "@) {
        Route::Evaluate
    } else if starts_with(line, "GET / "@) {
        Route::Index
    } else if starts_with(line, "GET /app.js "@) {
        Route::AppJs
    } else if starts_with(line, "GET /styles.css "@) {
        Route::Styles
    } else if starts_with(line, "GET /favicon.svg "@) || starts_with(line, "GET /assets/sendsure-mark.svg "@) {
        Route::Mark
    } else if starts_with(line, "GET /assets/sendsure-logo-horizontal.svg "@) {
        Route::LogoHorizontal
    } else {
        Route::NotFound
    }
}

/// The first line of a request head.
pub fn first_line(text: &str) -> (r: Vec<char>)
    ensures
        r@ == spec_first_line(text@),
{
    let t = chars_of(text);
    let mut k: usize = 0;
    assert(t@.subrange(0, t@.len() as int) =~= t@);
    while k < t.len()
        invariant
            k <= t@.len(),
            t@ == text@,
            find_char(t@, '\n') == match find_char(t@.subrange(k as int, t@.len() as int), '\n') {
                Some(m) => Some(m + k),
                None => None::<int>,
            },
        decreases t@.len() - k,
    {
        assert(t@.subrange(k as int, t@.len() as int).drop_first() =~= t@.subrange(k + 1, t@.len() as int));
        if t[k] == '\n' {
            let line = slice_chars(&t, 0, k);
            if k > 0 && line[k - 1] == '\r' {
                let stripped = slice_chars(&line, 0, k - 1);
                assert(stripped@ =~= line@.drop_last());
                return stripped;
            }
            return line;
        }
        k = k + 1;
    }
    t
}

/// The route that a request head asks for, by its first line.
pub fn route_request(request: &str) -> (r: Route)
    ensures
        r == spec_route(spec_first_line(request@)),
{
    let line = first_line(request);
    if starts_with_str(&line, "OPTIONS /api/evaluate ") {
        Route::EvaluateOptions
    } else if starts_with_str(&line, "GET /health ") {
        Route::Health
    } else if starts_with_str(&line, "GET /api/scenarios ") {
        Route::Scenarios
    } else if starts_with_str(&line, "POST /api/evaluate ") {
        Route::Evaluate
    } else if starts_with_str(&line, "GET / ") {
        Route::Index
    } else if starts_with_str(&line, "GET /app.js ") {
        Route::AppJs
    } else if starts_with_str(&line, "GET /styles.css ") {
        Route::Styles
    } else if starts_with_str(&line, "GET /favicon.svg ") || starts_with_str(
        &line,
        "GET /assets/sendsure-mark.svg ",
    ) {
        Route::Mark
    } else if starts_with_str(&line, "GET /assets/sendsure-logo-horizontal.svg ") {
        Route::LogoHorizontal
    } else {
        Route::NotFound
    }
}

impl Route {
    /// The status line of a successful answer on this route.
    pub open spec fn spec_status(self) -> Seq<char> {
        match self {
            Route::EvaluateOptions => "204 No Content"@,
            Route::NotFound => "404 Not Found"@,
            _ => "200 OK"@,
        }
    }

    /// The content type of the answer on this route.
    pub open spec fn spec_content_type(self) -> Seq<char> {
        match self {
            Route::EvaluateOptions => "text/plain; charset=utf-8"@,
            Route::Health | Route::Scenarios | Route::Evaluate | Route::NotFound => "application/json"@,
            Route::Index => "text/html; charset=utf-8"@,
            Route::AppJs => "application/javascript"@,
            Route::Styles => "text/css"@,
            Route::Mark | Route::LogoHorizontal => "image/svg+xml"@,
        }
    }

    /// The status line of a successful answer on this route.
    pub fn status(self) -> (s: &'static str)
        ensures
            s@ == self.spec_status(),
    {
        match self {
            Route::EvaluateOptions => "204 No Content",
            Route::NotFound => "404 Not Found",
            _ => "200 OK",
        }
    }

    /// The content type of the answer on this route.
    pub fn content_type(self) -> (s: &'static str)
        ensures
            s@ == self.spec_content_type(),
    {
        match self {
            Route::EvaluateOptions => "text/plain; charset=utf-8",
            Route::Health | Route::Scenarios | Route::Evaluate | Route::NotFound => "application/json",
            Route::Index => "text/html; charset=utf-8",
            Route::AppJs => "application/javascript",
            Route::Styles => "text/css",
            Route::Mark | Route::LogoHorizontal => "image/svg+xml",
        }
    }

    /// Extra header lines of the answer: the CORS preflight answer names the allowed
    /// method and header; the brand mark may be cached for a day.
    pub open spec fn spec_extra_headers(self) -> Seq<char> {
        match self {
            Route::EvaluateOptions => "Access-Control-Allow-Methods: POST, OPTIONS\r\nAccess-Control-Allow-Headers: Content-Type\r\n"@,
            Route::Mark => "Cache-Control: public, max-age=86400\r\n"@,
            _ => ""@,
        }
    }

    /// Extra header lines of the answer on this route.
    pub fn extra_headers(self) -> (s: &'static str)
        ensures
            s@ == self.spec_extra_headers(),
    {
        match self {
            Route::EvaluateOptions => "Access-Control-Allow-Methods: POST, OPTIONS\r\nAccess-Control-Allow-Headers: Content-Type\r\n",
            Route::Mark => "Cache-Control: public, max-age=86400\r\n",
            _ => "",
        }
    }
}

/// The header line, sent with every answer, that lets browsers on any origin call the API.
pub fn allow_origin_header() -> (s: &'static str)
    ensures
        s@ == "Access-Control-Allow-Origin: *\r\n"@,
{
    "Access-Control-Allow-Origin: *\r\n"
}

} // verus!
