//! The decisions of the HTTP layer that do not need a connection: whether
//! the API key can travel in a header, which URL a path resolves to, and
//! how a status and a body become a result.
use vstd::prelude::*;
use vstd::string::*;

use crate::config::ApiUrl;
use crate::error::{ConfigError, Error};

verus! {

/// A character that may stand in an HTTP header value: every byte of its
/// UTF-8 encoding is a tab, or at least 32 and not 127. Characters from
/// 128 on encode to bytes of at least 128 only.
pub open spec fn header_char_ok(c: char) -> bool {
    (c as u32 >= 32 && c as u32 != 127) || c == '\t'
}

/// Every character of `s` may stand in a header value.
pub open spec fn header_value_ok(s: Seq<char>) -> bool {
    forall|i: int| 0 <= i < s.len() ==> header_char_ok(#[trigger] s[i])
}

/// Checks `s` with `reqwest::header::HeaderValue::from_str`, which accepts a
/// string exactly when each of its bytes is a tab or lies in 32..=126 or
/// 128..=255, and whose error displays as `failed to parse header value`.
#[verifier::external_body]
fn check_header_value(s: &str) -> (r: Result<(), String>)
    ensures
        r is Ok <==> header_value_ok(s@),
        r matches Err(m) ==> m@ == "failed to parse header value"@,
{
    match reqwest::header::HeaderValue::from_str(s) {
        Ok(_) => Ok(()),
        Err(e) => Err(e.to_string()),
    }
}

/// Checks that the API key, if any, can be sent in the `x-api-key` header;
/// a key that cannot is a configuration error.
pub fn api_key_check(api_key: &Option<String>) -> (r: Result<(), Error>)
    ensures
        r is Ok <==> (match api_key {
            Some(k) => header_value_ok(k@),
            None => true,
        }),
        r matches Err(e) ==> e matches Error::Config(c) && c.message@ == "failed to parse header value"@,
{
    match api_key {
        Some(k) => match check_header_value(k.as_str()) {
            Ok(()) => Ok(()),
            Err(m) => Err(Error::Config(ConfigError::new(m.as_str()))),
        },
        None => Ok(()),
    }
}

/// Name for what `url::Url::join` makes of `path` against the URL serialized
/// as `base`: the serialization of the joined URL, or the text of the parse
/// error.
pub uninterp spec fn url_join_result(base: Seq<char>, path: Seq<char>) -> Result<Seq<char>, Seq<char>>;

/// Resolves `path` against the URL serialized as `base` with
/// `url::Url::join` (after re-parsing `base`), handing back the joined URL's
/// serialization or the error's text; the contract names the result.
#[verifier::external_body]
fn join_url(base: &str, path: &str) -> (r: Result<String, String>)
    ensures
        match r {
            Ok(u) => url_join_result(base@, path@) == Ok::<Seq<char>, Seq<char>>(u@),
            Err(m) => url_join_result(base@, path@) == Err::<Seq<char>, Seq<char>>(m@),
        },
{
    let b = match url::Url::parse(base) {
        Ok(b) => b,
        Err(e) => return Err(e.to_string()),
    };
    match b.join(path) {
        Ok(u) => Ok(u.as_str().to_owned()),
        Err(e) => Err(e.to_string()),
    }
}

/// The URL of an API path: `path` joined to the base URL; a join that fails
/// is a configuration error carrying the parser's message.
pub fn request_url(base: &ApiUrl, path: &str) -> (r: Result<String, Error>)
    ensures
        match url_join_result(base@.0, path@) {
            Ok(u) => r matches Ok(s) && s@ == u,
            Err(m) => r matches Err(e) && e matches Error::Config(c) && c.message@ == m,
        },
{
    match join_url(base.as_str(), path) {
        Ok(u) => Ok(u),
        Err(m) => Err(Error::Config(ConfigError::new(m.as_str()))),
    }
}

/// Whether an HTTP status code reports success (`200..=299`).
pub open spec fn status_success(code: u16) -> bool {
    200 <= code <= 299
}

/// The body of an answer whose status reports success; otherwise an API
/// error carrying `status: {status} {body}`, where `status_text` is how the
/// status displays.
pub fn check_status(code: u16, status_text: &str, body: String) -> (r: Result<String, Error>)
    ensures
        r is Ok <==> status_success(code),
        r matches Ok(b) ==> b@ == body@,
        r matches Err(e) ==> e matches Error::Api(m) && m@ == "status: "@ + status_text@ + " "@ + body@,
{
    if 200 <= code && code <= 299 {
        Ok(body)
    } else {
        let mut m = String::from_str("status: ");
        m.append(status_text);
        m.append(" ");
        m.append(body.as_str());
        Err(Error::Api(m))
    }
}

/// The error of a body that does not decode: the decoder's message followed
/// by `; body=` and the body.
pub fn parse_failure(message: &str, body: &str) -> (r: Error)
    ensures
        r matches Error::Parse(m) && m@ == message@ + "; body="@ + body@,
{
    let mut m = message.to_owned();
    m.append("; body=");
    m.append(body);
    Error::Parse(m)
}

} // verus!
