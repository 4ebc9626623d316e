//! The error type shared by every fallible operation of the crate.
use vstd::prelude::*;
use vstd::string::*;

verus! {

/// Invalid configuration: a bad URL, a malformed API key, or a symbol that
/// failed validation.
#[derive(Debug)]
pub struct ConfigError {
    /// Human-readable error message.
    pub message: String,
}

impl ConfigError {
    /// Builds a `ConfigError` carrying `message`.
    pub fn new(message: &str) -> (r: Self)
        ensures
            r.message@ == message@,
    {
        ConfigError { message: message.to_owned() }
    }

    /// The text the error displays: `config error: {message}`.
    pub fn to_string(&self) -> (r: String)
        ensures
            r@ == "config error: "@ + self.message@,
    {
        let mut out = String::from_str("config error: ");
        out.append(self.message.as_str());
        out
    }
}

/// Errors that any call of the client can surface.
#[derive(Debug)]
pub enum Error {
    /// Invalid configuration.
    Config(ConfigError),
    /// Transport-level failure (DNS, TLS, connection reset, ...); carries the
    /// transport's own description of the failure.
    Network(String),
    /// The remote API answered with a non-2xx status; carries the status and
    /// the raw body.
    Api(String),
    /// A response body could not be decoded.
    Parse(String),
    /// A table could not be assembled from the decoded payload.
    DataFrame(String),
}

/// The text that `error` displays.
pub open spec fn error_text(error: Error) -> Seq<char> {
    match error {
        Error::Config(c) => "config error: "@ + ("config error: "@ + c.message@),
        Error::Network(m) => "network error "@ + m@,
        Error::Api(m) => "API error "@ + m@,
        Error::Parse(m) => "parse error: "@ + m@,
        Error::DataFrame(m) => "dataframe error: "@ + m@,
    }
}

impl Error {
    /// The text the error displays, prefixed by its kind.
    pub fn to_string(&self) -> (r: String)
        ensures
            r@ == error_text(*self),
    {
        match self {
            Error::Config(c) => {
                let mut out = String::from_str("config error: ");
                let inner = c.to_string();
                out.append(inner.as_str());
                out
            },
            Error::Network(m) => {
                let mut out = String::from_str("network error ");
                out.append(m.as_str());
                out
            },
            Error::Api(m) => {
                let mut out = String::from_str("API error ");
                out.append(m.as_str());
                out
            },
            Error::Parse(m) => {
                let mut out = String::from_str("parse error: ");
                out.append(m.as_str());
                out
            },
            Error::DataFrame(m) => {
                let mut out = String::from_str("dataframe error: ");
                out.append(m.as_str());
                out
            },
        }
    }
}

} // verus!
