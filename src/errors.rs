//! Error responses: whether a client is answered in JSON, and the pages shown
//! in development mode.
use vstd::prelude::*;
use crate::capture::{has_prefix, starts_with};

verus! {

/// Paths under the JSON API.
pub const API_PREFIX: &'static str = "/api";

/// The media type that asks for a JSON answer.
pub const JSON_MEDIA_TYPE: &'static str = "application/json";

/// Whether `needle` occurs somewhere in `s`.
pub open spec fn contains_seq(s: Seq<char>, needle: Seq<char>) -> bool {
    exists|i: int| 0 <= i <= s.len() - needle.len() && #[trigger] s.subrange(i, i + needle.len()) == needle
}

/// Whether `needle` occurs somewhere in `s`.
pub fn contains_str(s: &str, needle: &str) -> (r: bool)
    ensures
        r == contains_seq(s@, needle@),
{
    let n = s.unicode_len();
    let m = needle.unicode_len();
    if m > n {
        return false;
    }
    let mut i: usize = 0;
    while i <= n - m
        invariant
            n == s@.len(),
            m == needle@.len(),
            m <= n,
            i <= n - m,
            forall|k: int| 0 <= k < i ==> #[trigger] s@.subrange(k, k + m) != needle@,
        decreases n - m + 1 - i,
    {
        let rest = s.substring_char(i, n);
        if has_prefix(rest, needle) {
            assert(s@.subrange(i as int, i + m) == rest@.subrange(0, m as int));
            return true;
        }
        assert(s@.subrange(i as int, i + m) == rest@.subrange(0, m as int));
        if i == n - m {
            return false;
        }
        i = i + 1;
    }
    false
}

/// Whether an error answer goes out as JSON: for API paths, and for clients
/// whose `Accept` header names JSON.
pub open spec fn wants_json_spec(path: Seq<char>, accept: Option<Seq<char>>) -> bool {
    ||| starts_with(path, API_PREFIX@)
    ||| (accept matches Some(a) && contains_seq(a, JSON_MEDIA_TYPE@))
}

/// Whether an error answer goes out as JSON. `accept` is the `Accept` header,
/// where it is present and readable.
pub fn wants_json(path: &str, accept: Option<&str>) -> (r: bool)
    ensures
        r == wants_json_spec(
            path@,
            match accept {
                Some(a) => Some(a@),
                None => None,
            },
        ),
{
    if has_prefix(path, API_PREFIX) {
        return true;
    }
    match accept {
        Some(a) => contains_str(a, JSON_MEDIA_TYPE),
        None => false,
    }
}

/// The escape of one character in HTML text.
pub open spec fn escape_char(c: char) -> Seq<char> {
    if c == '&' {
        seq!['&', 'a', 'm', 'p', ';']
    } else if c == '<' {
        seq!['&', 'l', 't', ';']
    } else if c == '>' {
        seq!['&', 'g', 't', ';']
    } else {
        seq![c]
    }
}

/// `s` made safe as HTML text: `&`, `<` and `>` become entities.
pub open spec fn escape_text(s: Seq<char>) -> Seq<char>
    decreases s.len(),
{
    if s.len() == 0 {
        Seq::empty()
    } else {
        escape_text(s.drop_last()) + escape_char(s.last())
    }
}

/// Relies on `html_escape::encode_text`, which replaces `&`, `<` and `>` by
/// `&amp;`, `&lt;` and `&gt;` and keeps every other character.
#[verifier::external_body]
fn encode_html_text(s: &str) -> (r: String)
    ensures
        r@ == escape_text(s@),
{
    html_escape::encode_text(s).into_owned()
}

/// The development page for a path that matched no route: the path is shown,
/// escaped.
pub fn not_found_dev_page(path: &str) -> (r: String)
    ensures
        r@ == NOT_FOUND_DEV_HEAD@ + escape_text(path@) + NOT_FOUND_DEV_TAIL@,
{
    let page = NOT_FOUND_DEV_HEAD.to_owned();
    let escaped = encode_html_text(path);
    let page = page.concat(escaped.as_str());
    page.concat(NOT_FOUND_DEV_TAIL)
}

/// The development fallback page for an internal error: the error text is
/// shown, escaped.
pub fn server_error_dev_page(details: &str) -> (r: String)
    ensures
        r@ == SERVER_ERROR_DEV_HEAD@ + escape_text(details@) + SERVER_ERROR_DEV_TAIL@,
{
    let page = SERVER_ERROR_DEV_HEAD.to_owned();
    let escaped = encode_html_text(details);
    let page = page.concat(escaped.as_str());
    page.concat(SERVER_ERROR_DEV_TAIL)
}

pub const NOT_FOUND_DEV_HEAD: &'static str = "<!DOCTYPE html>
<html>
<head>
    <meta charset=\"utf-8\">
    <title>404 Not Found</title>
    <style>
        body { font-family: -apple-system, BlinkMacSystemFont, \"Segoe UI\", Roboto, sans-serif;
               max-width: 800px; margin: 50px auto; padding: 20px; text-align: center; }
        h1 { color: #ff6b6b; font-size: 4em; margin: 0; }
        .path { background: #f5f5f5; padding: 10px; border-radius: 5px;
                 font-family: monospace; margin: 20px 0; }
        a { color: #4a90e2; text-decoration: none; }
        a:hover { text-decoration: underline; }
    </style>
</head>
<body>
    <h1>404</h1>
    <h2>Page Not Found</h2>
    <p>The requested path was not found:</p>
    <div class=\"path\">";

pub const NOT_FOUND_DEV_TAIL: &'static str = "</div>
    <p><a href=\"/\">&larr; Back to Home</a></p>
</body>
</html>";

pub const SERVER_ERROR_DEV_HEAD: &'static str = "<!DOCTYPE html>
<html>
<head>
    <meta charset=\"utf-8\">
    <title>500 Internal Server Error</title>
    <style>
        body { font-family: -apple-system, BlinkMacSystemFont, \"Segoe UI\", Roboto, sans-serif;
               max-width: 900px; margin: 50px auto; padding: 20px; line-height: 1.6; }
        h1 { color: #d32f2f; }
        .error-box { background: #f5f5f5; border-left: 4px solid #d32f2f;
                      padding: 15px; margin: 20px 0; overflow-x: auto; }
        pre { margin: 0; white-space: pre-wrap; word-wrap: break-word; }
        .tip { background: #fff3cd; border-left: 4px solid #ffc107;
                padding: 15px; margin: 20px 0; }
    </style>
</head>
<body>
    <h1>500 Internal Server Error</h1>
    <p>An error occurred while processing your request.</p>

    <div class=\"error-box\">
        <strong>Error Details:</strong>
        <pre>";

pub const SERVER_ERROR_DEV_TAIL: &'static str = "</pre>
    </div>

    <div class=\"tip\">
        <strong>Debugging Tips:</strong>
        <ul>
            <li>Check that your templates directory exists and contains the required .html files</li>
            <li>Verify template syntax is correct</li>
            <li>Check server logs for more details</li>
            <li>Set <code>RUST_ENV=production</code> to hide detailed errors</li>
        </ul>
    </div>
</body>
</html>";

} // verus!
