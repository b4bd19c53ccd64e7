//! The introspection endpoint: which paths it serves and what it answers.
//! Rendering the metrics snapshot as a document is left to the caller.

use vstd::prelude::*;

verus! {

#[derive(Clone, Debug, PartialEq, Eq)]
pub struct HeaderField(pub String, pub String);

#[derive(Clone, Debug, PartialEq, Eq)]
pub struct HttpRequest {
    pub method: String,
    pub url: String,
    pub headers: Vec<(String, String)>,
    pub body: Vec<u8>,
}

#[derive(Clone, Debug, PartialEq, Eq)]
pub struct HttpResponse {
    pub status_code: u16,
    pub headers: Vec<HeaderField>,
    pub body: Vec<u8>,
}

impl HttpResponse {
    pub fn not_found() -> (response: HttpResponse)
        ensures
            response.status_code == 404,
            response.headers@.len() == 0,
            response.body@.len() == 0,
    {
        HttpResponse::status_code(404)
    }

    /// An answer with a status and nothing else.
    pub fn status_code(code: u16) -> (response: HttpResponse)
        ensures
            response.status_code == code,
            response.headers@.len() == 0,
            response.body@.len() == 0,
    {
        HttpResponse { status_code: code, headers: Vec::new(), body: Vec::new() }
    }
}

/// `s` without the occurrences of `c` that it begins with.
pub open spec fn without_leading(s: Seq<char>, c: char) -> Seq<char>
    decreases s.len(),
{
    if s.len() > 0 && s[0] == c {
        without_leading(s.drop_first(), c)
    } else {
        s
    }
}

/// `s` without the occurrences of `c` that it ends with.
pub open spec fn without_trailing(s: Seq<char>, c: char) -> Seq<char>
    decreases s.len(),
{
    if s.len() > 0 && s.last() == c {
        without_trailing(s.drop_last(), c)
    } else {
        s
    }
}

/// The lowercase form that the standard library gives a string.
pub uninterp spec fn lowercase(s: Seq<char>) -> Seq<char>;

/// The decimal digit for a number below ten.
pub open spec fn decimal_digit(d: nat) -> char {
    if d == 0 {
        '0'
    } else if d == 1 {
        '1'
    } else if d == 2 {
        '2'
    } else if d == 3 {
        '3'
    } else if d == 4 {
        '4'
    } else if d == 5 {
        '5'
    } else if d == 6 {
        '6'
    } else if d == 7 {
        '7'
    } else if d == 8 {
        '8'
    } else {
        '9'
    }
}

/// A number written in decimal, without leading zeros.
pub open spec fn decimal(n: nat) -> Seq<char>
    decreases n,
{
    if n < 10 {
        seq![decimal_digit(n)]
    } else {
        decimal(n / 10).push(decimal_digit(n % 10))
    }
}

/// Calls `str::trim_start_matches` with the pattern `'/'`, which removes
/// every slash that the string begins with and nothing else.
#[verifier::external_body]
fn trim_start_slashes(s: &str) -> (trimmed: &str)
    ensures
        trimmed@ == without_leading(s@, '/'),
{
    s.trim_start_matches('/')
}

/// Calls `str::trim_end_matches` with the pattern `'/'`, which removes every
/// slash that the string ends with and nothing else.
#[verifier::external_body]
fn trim_end_slashes(s: &str) -> (trimmed: &str)
    ensures
        trimmed@ == without_trailing(s@, '/'),
{
    s.trim_end_matches('/')
}

/// Calls `str::to_lowercase`. What the lowercase of a string is the standard
/// library decides from the Unicode tables; here it only has a name.
#[verifier::external_body]
fn to_lowercase(s: &str) -> (lowered: String)
    ensures
        lowered@ == lowercase(s@),
{
    s.to_lowercase()
}

/// Calls `to_string` on a `usize`, which writes the number in decimal
/// without sign, padding or leading zeros.
#[verifier::external_body]
fn usize_to_string(n: usize) -> (written: String)
    ensures
        written@ == decimal(n as nat),
{
    n.to_string()
}

/// The path that a request's URL asks for: the URL without the slashes
/// around it, in lowercase.
pub open spec fn normalized(url: Seq<char>) -> Seq<char> {
    lowercase(without_trailing(without_leading(url, '/'), '/'))
}

/// What the endpoint serves under a path.
#[derive(Clone, Copy, Debug, PartialEq, Eq)]
pub enum Route {
    Metrics,
    NotFound,
}

pub fn normalized_path(url: &str) -> (path: String)
    ensures
        path@ == normalized(url@),
{
    to_lowercase(trim_end_slashes(trim_start_slashes(url)))
}

/// The metrics snapshot is served under `metrics`; nothing else is served.
pub fn route(path: &String) -> (route: Route)
    ensures
        route == if path@ == "metrics"@ {
            Route::Metrics
        } else {
            Route::NotFound
        },
{
    if *path == "metrics".to_string() {
        Route::Metrics
    } else {
        Route::NotFound
    }
}

/// Decides what a request is answered with.
pub fn http_request(request: &HttpRequest) -> (route: Route)
    ensures
        route == if normalized(request.url@) == "metrics"@ {
            Route::Metrics
        } else {
            Route::NotFound
        },
{
    let path = normalized_path(request.url.as_str());
    self::route(&path)
}

/// The answer that carries the metrics snapshot, rendered as `body`.
pub fn metrics_response(body: Vec<u8>) -> (response: HttpResponse)
    ensures
        response.status_code == 200,
        response.body == body,
        response.headers@.len() == 2,
        response.headers@[0].0@ == "Content-Type"@,
        response.headers@[0].1@ == "application/json"@,
        response.headers@[1].0@ == "Content-Length"@,
        response.headers@[1].1@ == decimal(body@.len()),
{
    let mut headers: Vec<HeaderField> = Vec::new();
    headers.push(HeaderField("Content-Type".to_string(), "application/json".to_string()));
    headers.push(HeaderField("Content-Length".to_string(), usize_to_string(body.len())));
    HttpResponse { status_code: 200, headers, body }
}

} // verus!
