//! How a client reaches its server: the address, the limits on one request,
//! the bound on retries, and the paths of the endpoints.

use crate::error::{ClientError, ClientResult};
use crate::text::{
    chars_of, has_prefix, push_str, string_of, strip_leading, strip_trailing, sub_vec,
};
use std::time::Duration;
use vstd::prelude::*;

verus! {

/// `url::Url`, a parsed URL, carried through as it is.
#[verifier::external_type_specification]
#[verifier::external_body]
pub struct ExUrl(url::Url);

/// `url::ParseError`, the error of reading a URL, carried through as it is.
#[verifier::external_type_specification]
#[verifier::external_body]
pub struct ExUrlParseError(url::ParseError);

/// Whether `text` is an absolute URL.
pub uninterp spec fn url_is_valid(text: Seq<char>) -> bool;

/// The length of a duration in nanoseconds.
pub uninterp spec fn duration_nanos(d: Duration) -> nat;

/// `Duration::from_secs` gives a duration of that many whole seconds.
pub assume_specification[ Duration::from_secs ](secs: u64) -> (d: Duration)
    ensures
        duration_nanos(d) == secs * 1_000_000_000,
;

/// `Duration::from_millis` gives a duration of that many milliseconds.
pub assume_specification[ Duration::from_millis ](millis: u64) -> (d: Duration)
    ensures
        duration_nanos(d) == millis * 1_000_000,
;

/// `Duration::as_secs` gives the whole seconds that a duration holds.
pub assume_specification[ Duration::as_secs ](d: &Duration) -> (secs: u64)
    ensures
        secs == duration_nanos(*d) / 1_000_000_000,
;

/// A copy of a duration is the same duration.
pub assume_specification[ <Duration as Clone>::clone ](d: &Duration) -> (c: Duration)
    ensures
        c == *d,
;

/// Reads `text` as an absolute URL.
///
/// Trusted: calls `url::Url::parse`. Whether it succeeds depends on the
/// text alone (`url_is_valid`).
#[verifier::external_body]
fn parse_url(text: &str) -> (r: Result<url::Url, url::ParseError>)
    ensures
        r is Ok <==> url_is_valid(text@),
{
    url::Url::parse(text)
}

/// Why a text is no URL, in words.
///
/// Trusted: calls `to_string` on a `url::ParseError`; nothing is claimed of
/// the text.
#[verifier::external_body]
fn url_error_text(e: &url::ParseError) -> (r: String) {
    e.to_string()
}

/// Configuration of a client.
#[derive(Debug, Clone)]
pub struct ClientConfig {
    /// Server URL, such as "http://localhost:3000".
    pub server_url: String,
    /// Time limit of one request.
    pub timeout: Duration,
    /// User agent string.
    pub user_agent: String,
    /// API key, sent as a bearer token.
    pub api_key: Option<String>,
    /// How often a failed request is tried again at most.
    pub max_retries: usize,
    /// The pause before each retry.
    pub retry_delay: Duration,
    /// Whether requests and responses are logged.
    pub enable_logging: bool,
}

impl Default for ClientConfig {
    /// The configuration for a server on this machine: 30 seconds per
    /// request, three retries one second apart, logging on.
    fn default() -> (c: Self)
        ensures
            c.server_url@ == "http://localhost:3000"@,
            duration_nanos(c.timeout) == 30 * 1_000_000_000,
            c.user_agent@ == "lmoclient/0.1.0"@,
            c.api_key is None,
            c.max_retries == 3,
            duration_nanos(c.retry_delay) == 1000 * 1_000_000,
            c.enable_logging,
    {
        ClientConfig {
            server_url: "http://localhost:3000".to_owned(),
            timeout: Duration::from_secs(30),
            user_agent: "lmoclient/0.1.0".to_owned(),
            api_key: None,
            max_retries: 3,
            retry_delay: Duration::from_millis(1000),
            enable_logging: true,
        }
    }
}

impl ClientConfig {
    /// What `validate` accepts: an absolute server URL, a time limit of at
    /// least a second, and at most ten retries.
    pub open spec fn is_valid(self) -> bool {
        &&& url_is_valid(self.server_url@)
        &&& duration_nanos(self.timeout) >= 1_000_000_000
        &&& self.max_retries <= 10
    }

    /// Whether `e` is the error that `validate` gives for this
    /// configuration: a configuration error that names the first check
    /// that fails.
    pub open spec fn is_refusal(self, e: ClientError) -> bool {
        e matches ClientError::ConfigError(m) && if !url_is_valid(self.server_url@) {
            has_prefix(m@, "Invalid server URL: "@)
        } else if duration_nanos(self.timeout) < 1_000_000_000 {
            m@ == "Timeout must be greater than 0"@
        } else {
            self.max_retries > 10 && m@ == "Max retries cannot exceed 10"@
        }
    }

    /// The address of `endpoint` on the server: the server URL without
    /// trailing slashes, then, unless the endpoint is empty once its
    /// leading slashes are gone, a slash and the rest of the endpoint.
    pub open spec fn url_of(self, endpoint: Seq<char>) -> Seq<char> {
        let base = strip_trailing(self.server_url@, '/');
        let path = strip_leading(endpoint, '/');
        if path.len() == 0 {
            base
        } else {
            base + seq!['/'] + path
        }
    }

    /// The default configuration for the server at `server_url`, if it is
    /// valid.
    pub fn new(server_url: &str) -> (r: ClientResult<Self>)
        ensures
            r is Ok <==> url_is_valid(server_url@),
            r matches Ok(c) ==> c.server_url@ == server_url@ && c.is_valid() && c.api_key is None
                && c.max_retries == 3 && c.enable_logging && c.user_agent@ == "lmoclient/0.1.0"@
                && duration_nanos(c.timeout) == 30 * 1_000_000_000 && duration_nanos(
                c.retry_delay,
            ) == 1000 * 1_000_000,
            r matches Err(e) ==> e matches ClientError::ConfigError(m) && has_prefix(
                m@,
                "Invalid server URL: "@,
            ),
    {
        let mut config = ClientConfig::default();
        config.server_url = server_url.to_owned();
        match config.validate() {
            Ok(()) => Ok(config),
            Err(e) => Err(e),
        }
    }

    /// Checks the configuration. The first of these that fails is reported
    /// as a configuration error: the server URL is an absolute URL, the time
    /// limit is at least one second, there are at most ten retries.
    pub fn validate(&self) -> (r: ClientResult<()>)
        ensures
            r is Ok <==> self.is_valid(),
            r matches Err(e) ==> self.is_refusal(e),
    {
        match parse_url(self.server_url.as_str()) {
            Ok(_) => {},
            Err(e) => {
                let mut m: Vec<char> = Vec::new();
                push_str(&mut m, "Invalid server URL: ");
                push_str(&mut m, url_error_text(&e).as_str());
                proof {
                    let p = "Invalid server URL: "@;
                    assert(m@.subrange(0, p.len() as int) =~= p);
                }
                return Err(ClientError::ConfigError(string_of(&m)));
            },
        }
        if self.timeout.as_secs() == 0 {
            return Err(ClientError::ConfigError("Timeout must be greater than 0".to_owned()));
        }
        if self.max_retries > 10 {
            return Err(ClientError::ConfigError("Max retries cannot exceed 10".to_owned()));
        }
        Ok(())
    }

    /// The address of `endpoint` on the server.
    pub fn api_url(&self, endpoint: &str) -> (r: ClientResult<String>)
        ensures
            r matches Ok(u) && u@ == self.url_of(endpoint@),
    {
        let base = chars_of(self.server_url.as_str());
        let path = chars_of(endpoint);
        let mut hi: usize = base.len();
        proof {
            assert(base@.take(base@.len() as int) =~= base@);
            assert(path@.skip(0) =~= path@);
        }
        while hi > 0 && base[hi - 1] == '/'
            invariant
                hi <= base.len(),
                strip_trailing(base@.take(hi as int), '/') == strip_trailing(base@, '/'),
            decreases hi,
        {
            proof {
                assert(base@.take(hi as int).drop_last() =~= base@.take(hi - 1));
            }
            hi -= 1;
        }
        let mut lo: usize = 0;
        while lo < path.len() && path[lo] == '/'
            invariant
                lo <= path.len(),
                strip_leading(path@.skip(lo as int), '/') == strip_leading(path@, '/'),
            decreases path.len() - lo,
        {
            proof {
                assert(path@.skip(lo as int).drop_first() =~= path@.skip(lo + 1));
            }
            lo += 1;
        }
        let mut out = sub_vec(&base, 0, hi);
        proof {
            assert(out@ =~= base@.take(hi as int));
        }
        if lo < path.len() {
            out.push('/');
            let mut i: usize = lo;
            while i < path.len()
                invariant
                    lo <= i <= path.len(),
                    out@ == base@.take(hi as int) + seq!['/'] + path@.subrange(lo as int, i as int),
                decreases path.len() - i,
            {
                out.push(path[i]);
                i += 1;
            }
            proof {
                assert(path@.subrange(lo as int, path@.len() as int) =~= path@.skip(lo as int));
            }
        }
        Ok(string_of(&out))
    }

    /// The same configuration with `api_key` as its API key.
    pub fn with_api_key(self, api_key: &str) -> (c: Self)
        ensures
            c.api_key matches Some(k) && k@ == api_key@,
            c.server_url == self.server_url,
            c.timeout == self.timeout,
            c.user_agent == self.user_agent,
            c.max_retries == self.max_retries,
            c.retry_delay == self.retry_delay,
            c.enable_logging == self.enable_logging,
    {
        let mut c = self;
        c.api_key = Some(api_key.to_owned());
        c
    }

    /// The same configuration with `timeout` as the time limit of a request.
    pub fn with_timeout(self, timeout: Duration) -> (c: Self)
        ensures
            c.timeout == timeout,
            c.server_url == self.server_url,
            c.user_agent == self.user_agent,
            c.api_key == self.api_key,
            c.max_retries == self.max_retries,
            c.retry_delay == self.retry_delay,
            c.enable_logging == self.enable_logging,
    {
        let mut c = self;
        c.timeout = timeout;
        c
    }

    /// The same configuration with logging on or off.
    pub fn with_logging(self, enable: bool) -> (c: Self)
        ensures
            c.enable_logging == enable,
            c.server_url == self.server_url,
            c.timeout == self.timeout,
            c.user_agent == self.user_agent,
            c.api_key == self.api_key,
            c.max_retries == self.max_retries,
            c.retry_delay == self.retry_delay,
    {
        let mut c = self;
        c.enable_logging = enable;
        c
    }
}

/// The paths of the server's endpoints.
pub struct Endpoints;

impl Endpoints {
    pub const HEALTH: &'static str = "v1/health";

    pub const MODELS_LIST: &'static str = "v1/models";

    pub const MODELS_LIST_LOCAL: &'static str = "v1/models/local";

    pub const MODELS_LOAD: &'static str = "v1/models/load";

    pub const MODELS_UNLOAD: &'static str = "v1/models/unload";

    pub const MODELS_LOADED: &'static str = "v1/models/loaded";

    pub const MODELS_STATUS: &'static str = "v1/models/status";

    pub const MODELS_DOWNLOAD: &'static str = "v1/models/download";

    pub const MODELS_DOWNLOAD_LEGACY: &'static str = "v1/models/download/legacy";

    pub const CHAT_COMPLETIONS: &'static str = "v1/chat/completions";

    pub const CHAT_COMPLETIONS_STREAM: &'static str = "v1/chat/completions/stream";

    /// The path of the progress stream of the download `download_id`.
    pub fn download_progress_sse(download_id: &str) -> (path: String)
        ensures
            path@ == "v1/models/download/"@ + download_id@ + "/progress"@,
    {
        let mut out: Vec<char> = Vec::new();
        push_str(&mut out, "v1/models/download/");
        push_str(&mut out, download_id);
        push_str(&mut out, "/progress");
        string_of(&out)
    }

    /// The path on which the download `download_id` is paused, resumed or
    /// cancelled.
    pub fn download_control(download_id: &str) -> (path: String)
        ensures
            path@ == "v1/models/download/"@ + download_id@ + "/control"@,
    {
        let mut out: Vec<char> = Vec::new();
        push_str(&mut out, "v1/models/download/");
        push_str(&mut out, download_id);
        push_str(&mut out, "/control");
        string_of(&out)
    }
}

/// A path of one of the server's endpoints.
pub type ServerEndpoint = &'static str;

} // verus!
