//! Client configuration: API key, REST and WebSocket endpoints, timeout, and
//! the builder that assembles them.
use vstd::prelude::*;
use vstd::string::*;

use crate::text::{opt_view, str_eq};

verus! {

/// Name for what the `url` crate makes of `s`: the serialization and the
/// scheme of `url::Url::parse(s)`, or `None` when `s` does not parse.
pub uninterp spec fn url_parse_result(s: Seq<char>) -> Option<(Seq<char>, Seq<char>)>;

/// Name for what the `url` crate makes of the URL serialized as `href` once
/// its scheme is changed to `scheme` (`url::Url::set_scheme`): the new
/// serialization and scheme, or `None` when `href` does not parse or the
/// change is refused.
pub uninterp spec fn url_rescheme_result(href: Seq<char>, scheme: Seq<char>) -> Option<(Seq<char>, Seq<char>)>;

/// Parses `s` with `url::Url::parse` and hands back its serialization
/// (`Url::as_str`) and scheme (`Url::scheme`); the contract names the result
/// and says nothing of URL syntax.
#[verifier::external_body]
fn parse_url(s: &str) -> (r: Option<(String, String)>)
    ensures
        match r {
            Some((h, sc)) => url_parse_result(s@) == Some((h@, sc@)),
            None => url_parse_result(s@) is None,
        },
{
    let u = url::Url::parse(s).ok()?;
    Some((u.as_str().to_owned(), u.scheme().to_owned()))
}

/// Re-parses `href` and changes its scheme with `url::Url::set_scheme`,
/// handing back the new serialization and scheme; the contract names the
/// result and says nothing of when the change is refused.
#[verifier::external_body]
fn rescheme_url(href: &str, scheme: &str) -> (r: Option<(String, String)>)
    ensures
        match r {
            Some((h, sc)) => url_rescheme_result(href@, scheme@) == Some((h@, sc@)),
            None => url_rescheme_result(href@, scheme@) is None,
        },
{
    let mut u = url::Url::parse(href).ok()?;
    u.set_scheme(scheme).ok()?;
    Some((u.as_str().to_owned(), u.scheme().to_owned()))
}

/// A parsed URL, kept as its serialization and its scheme.
#[derive(Debug)]
pub struct ApiUrl {
    href: String,
    scheme: String,
}

impl View for ApiUrl {
    type V = (Seq<char>, Seq<char>);

    closed spec fn view(&self) -> (Seq<char>, Seq<char>) {
        (self.href@, self.scheme@)
    }
}

impl Clone for ApiUrl {
    fn clone(&self) -> (r: Self)
        ensures
            r@ == self@,
    {
        ApiUrl { href: self.href.clone(), scheme: self.scheme.clone() }
    }
}

impl ApiUrl {
    /// Parses `s` as an absolute URL.
    pub fn parse(s: &str) -> (r: Option<ApiUrl>)
        ensures
            match r {
                Some(u) => url_parse_result(s@) == Some(u@),
                None => url_parse_result(s@) is None,
            },
    {
        match parse_url(s) {
            Some((href, scheme)) => Some(ApiUrl { href, scheme }),
            None => None,
        }
    }

    /// The URL's serialization.
    pub fn as_str(&self) -> (r: &str)
        ensures
            r@ == self@.0,
    {
        self.href.as_str()
    }

    /// The URL's scheme.
    pub fn scheme(&self) -> (r: &str)
        ensures
            r@ == self@.1,
    {
        self.scheme.as_str()
    }
}

/// The WebSocket scheme paired with a REST scheme: `https` → `wss`,
/// `http` → `ws`; other schemes stay.
pub open spec fn ws_scheme_for(scheme: Seq<char>) -> Option<Seq<char>> {
    if scheme == "https"@ {
        Some("wss"@)
    } else if scheme == "http"@ {
        Some("ws"@)
    } else {
        None
    }
}

/// The WebSocket URL derived from a REST URL: its scheme switched to the
/// matching WebSocket scheme where there is one (the URL unchanged where
/// the `url` crate refuses the switch).
pub open spec fn ws_url_of(base: (Seq<char>, Seq<char>)) -> (Seq<char>, Seq<char>) {
    match ws_scheme_for(base.1) {
        Some(ws) => match url_rescheme_result(base.0, ws) {
            Some(u) => u,
            None => base,
        },
        None => base,
    }
}

/// Derives the WebSocket URL from a REST URL.
pub fn derive_ws_url(base: &ApiUrl) -> (r: ApiUrl)
    ensures
        r@ == ws_url_of(base@),
{
    let target = if str_eq(base.scheme(), "https") {
        Some("wss")
    } else if str_eq(base.scheme(), "http") {
        Some("ws")
    } else {
        None
    };
    match target {
        Some(ws) => match rescheme_url(base.as_str(), ws) {
            Some((href, scheme)) => ApiUrl { href, scheme },
            None => base.clone(),
        },
        None => base.clone(),
    }
}

/// A span of time: whole seconds and the nanoseconds beyond them (what
/// `std::time::Duration` holds, as plain values).
#[derive(Debug, Clone, Copy, PartialEq, Eq, Structural)]
pub struct Timeout {
    pub secs: u64,
    pub subsec_nanos: u32,
}

impl Timeout {
    /// A span of `secs` whole seconds.
    pub fn from_secs(secs: u64) -> (r: Self)
        ensures
            r == (Timeout { secs, subsec_nanos: 0 }),
    {
        Timeout { secs, subsec_nanos: 0 }
    }
}

/// Default REST endpoint.
pub const DEFAULT_BASE_URL: &'static str = "https://api.tickflow.org";

/// REST endpoint of the free service.
pub const FREE_BASE_URL: &'static str = "https://free-api.tickflow.org";

/// A URL parsed from `s`, or, should `s` not parse, the text of `s` with an
/// empty scheme.
pub open spec fn parsed_or_text(s: Seq<char>) -> (Seq<char>, Seq<char>) {
    match url_parse_result(s) {
        Some(u) => u,
        None => (s, Seq::empty()),
    }
}

/// Parses one of the built-in endpoints.
fn builtin_url(s: &str) -> (r: ApiUrl)
    ensures
        r@ == parsed_or_text(s@),
{
    match ApiUrl::parse(s) {
        Some(u) => u,
        None => ApiUrl { href: s.to_owned(), scheme: String::new() },
    }
}

/// Client configuration.
#[derive(Debug)]
pub struct Config {
    /// Optional API key for authentication.
    pub api_key: Option<String>,
    /// Base URL of the REST API.
    pub base_url: ApiUrl,
    /// WebSocket base URL, derived from `base_url`.
    pub ws_url: ApiUrl,
    /// Per-request timeout.
    pub timeout: Timeout,
    /// Maximum number of retry attempts for failed requests.
    pub max_retries: u32,
}

impl Clone for Config {
    fn clone(&self) -> (r: Self)
        ensures
            opt_view(r.api_key) == opt_view(self.api_key),
            r.base_url@ == self.base_url@,
            r.ws_url@ == self.ws_url@,
            r.timeout == self.timeout,
            r.max_retries == self.max_retries,
    {
        Config {
            api_key: crate::text::clone_opt(&self.api_key),
            base_url: self.base_url.clone(),
            ws_url: self.ws_url.clone(),
            timeout: self.timeout,
            max_retries: self.max_retries,
        }
    }
}

impl Config {
    /// The default configuration: no API key, the default endpoint and its
    /// WebSocket twin, a 30-second timeout, 3 retries.
    pub fn new() -> (r: Self)
        ensures
            r.api_key is None,
            r.base_url@ == parsed_or_text(DEFAULT_BASE_URL@),
            r.ws_url@ == ws_url_of(r.base_url@),
            r.timeout == (Timeout { secs: 30, subsec_nanos: 0 }),
            r.max_retries == 3,
    {
        let base_url = builtin_url(DEFAULT_BASE_URL);
        let ws_url = derive_ws_url(&base_url);
        Config { api_key: None, base_url, ws_url, timeout: Timeout::from_secs(30), max_retries: 3 }
    }

    /// Applies values read from the environment: an API key replaces the
    /// current one; a base URL that parses replaces the endpoints, and one
    /// that does not is ignored.
    pub fn with_env(self, api_key: Option<String>, base_url: Option<String>) -> (r: Self)
        ensures
            opt_view(r.api_key) == (match api_key {
                Some(k) => Some(k@),
                None => opt_view(self.api_key),
            }),
            r.base_url@ == (match base_url {
                Some(b) => match url_parse_result(b@) {
                    Some(u) => u,
                    None => self.base_url@,
                },
                None => self.base_url@,
            }),
            r.ws_url@ == (match base_url {
                Some(b) => match url_parse_result(b@) {
                    Some(u) => ws_url_of(u),
                    None => self.ws_url@,
                },
                None => self.ws_url@,
            }),
            r.timeout == self.timeout,
            r.max_retries == self.max_retries,
    {
        let mut out = self;
        if let Some(k) = api_key {
            out.api_key = Some(k);
        }
        if let Some(b) = base_url {
            if let Some(parsed) = ApiUrl::parse(b.as_str()) {
                out.ws_url = derive_ws_url(&parsed);
                out.base_url = parsed;
            }
        }
        out
    }
}

impl Default for Config {
    fn default() -> (r: Self)
        ensures
            r.api_key is None,
            r.base_url@ == parsed_or_text(DEFAULT_BASE_URL@),
            r.ws_url@ == ws_url_of(r.base_url@),
            r.timeout == (Timeout { secs: 30, subsec_nanos: 0 }),
            r.max_retries == 3,
    {
        Config::new()
    }
}

/// Assembles a [`Config`] for a client.
#[derive(Debug)]
pub struct TickFlowBuilder {
    config: Config,
}

impl TickFlowBuilder {
    /// The configuration held by the builder.
    pub closed spec fn settings(&self) -> Config {
        self.config
    }

    /// A builder starting from `config`.
    pub fn from_config(config: Config) -> (r: Self)
        ensures
            opt_view(r.settings().api_key) == opt_view(config.api_key),
            r.settings().base_url@ == config.base_url@,
            r.settings().ws_url@ == config.ws_url@,
            r.settings().timeout == config.timeout,
            r.settings().max_retries == config.max_retries,
    {
        TickFlowBuilder { config }
    }

    /// The configuration assembled so far.
    pub fn config(&self) -> (r: &Config)
        ensures
            *r == self.settings(),
    {
        &self.config
    }

    /// The configuration, taking ownership.
    pub fn into_config(self) -> (r: Config)
        ensures
            r == self.settings(),
    {
        self.config
    }

    /// Sets the API key.
    pub fn api_key(self, api_key: &str) -> (r: Self)
        ensures
            opt_view(r.settings().api_key) == Some(api_key@),
            r.settings().base_url@ == self.settings().base_url@,
            r.settings().ws_url@ == self.settings().ws_url@,
            r.settings().timeout == self.settings().timeout,
            r.settings().max_retries == self.settings().max_retries,
    {
        let mut out = self;
        out.config.api_key = Some(api_key.to_owned());
        out
    }

    /// Points the client at another REST endpoint, and the WebSocket URL at
    /// its twin; a URL that does not parse leaves both unchanged.
    pub fn base_url(self, base_url: &str) -> (r: Self)
        ensures
            opt_view(r.settings().api_key) == opt_view(self.settings().api_key),
            r.settings().base_url@ == (match url_parse_result(base_url@) {
                Some(u) => u,
                None => self.settings().base_url@,
            }),
            r.settings().ws_url@ == (match url_parse_result(base_url@) {
                Some(u) => ws_url_of(u),
                None => self.settings().ws_url@,
            }),
            r.settings().timeout == self.settings().timeout,
            r.settings().max_retries == self.settings().max_retries,
    {
        let mut out = self;
        if let Some(parsed) = ApiUrl::parse(base_url) {
            out.config.ws_url = derive_ws_url(&parsed);
            out.config.base_url = parsed;
        }
        out
    }

    /// Switches to the free service: a fresh default configuration (no API
    /// key) pointed at the free endpoint.
    pub fn free_tier(self) -> (r: Self)
        ensures
            r.settings().api_key is None,
            r.settings().base_url@ == (match url_parse_result(FREE_BASE_URL@) {
                Some(u) => u,
                None => parsed_or_text(DEFAULT_BASE_URL@),
            }),
            r.settings().ws_url@ == ws_url_of(r.settings().base_url@),
            r.settings().timeout == (Timeout { secs: 30, subsec_nanos: 0 }),
            r.settings().max_retries == 3,
    {
        let mut config = Config::new();
        if let Some(parsed) = ApiUrl::parse(FREE_BASE_URL) {
            config.ws_url = derive_ws_url(&parsed);
            config.base_url = parsed;
        }
        TickFlowBuilder { config }
    }

    /// Sets the per-request timeout.
    pub fn timeout(self, t: Timeout) -> (r: Self)
        ensures
            opt_view(r.settings().api_key) == opt_view(self.settings().api_key),
            r.settings().base_url@ == self.settings().base_url@,
            r.settings().ws_url@ == self.settings().ws_url@,
            r.settings().timeout == t,
            r.settings().max_retries == self.settings().max_retries,
    {
        let mut out = self;
        out.config.timeout = t;
        out
    }
}

} // verus!
