//! Declarative endpoint configuration and its validation.
//!
//! A configuration is rejected as a whole when any endpoint is malformed:
//! empty or non-`/` path, duplicate path, unparsable target URL or a scheme
//! other than http/https, unknown HTTP method, out-of-bounds timeout or
//! retry numbers, or an empty header name. The contracts state the accepting
//! set exactly, so the laws about rejected configurations follow from them.

use vstd::prelude::*;

use crate::error::RetryConfig;
use crate::text::{eq_ignore_case, trim_spec, str_eq, str_eq_ignore_case, str_trim};

verus! {

/// Output mode a route declares for its upstream response.
#[derive(Clone, Copy, Debug, PartialEq, Eq, Structural)]
pub enum ResponseType {
    Json,
    Sse,
    Stream,
    Html,
}

/// Retry numbers as configured for one route or globally. The multiplier is
/// in percent: 200 doubles the delay on each attempt.
pub struct RetrySettings {
    pub max_attempts: u32,
    pub base_delay_ms: u64,
    pub max_delay_ms: u64,
    pub backoff_multiplier_percent: u32,
}

/// The bounds every retry setting must satisfy.
pub open spec fn retry_settings_valid(r: RetrySettings) -> bool {
    &&& 1 <= r.max_attempts <= 10
    &&& 1 <= r.base_delay_ms <= 60000
    &&& r.base_delay_ms <= r.max_delay_ms <= 600000
    &&& 100 <= r.backoff_multiplier_percent <= 1000
}

/// Why a retry setting was rejected.
#[derive(Clone, Copy, Debug, PartialEq, Eq, Structural)]
pub enum RetryFault {
    MaxAttempts,
    BaseDelay,
    MaxDelay,
    Multiplier,
}

impl Default for RetrySettings {
    /// Three attempts, 100 ms growing twofold up to 10 s.
    fn default() -> (r: Self)
        ensures
            r.max_attempts == 3,
            r.base_delay_ms == 100,
            r.max_delay_ms == 10000,
            r.backoff_multiplier_percent == 200,
    {
        RetrySettings {
            max_attempts: 3,
            base_delay_ms: 100,
            max_delay_ms: 10000,
            backoff_multiplier_percent: 200,
        }
    }
}

impl RetrySettings {
    /// An exact copy of these settings.
    pub fn duplicate(&self) -> (r: Self)
        ensures
            r == *self,
    {
        RetrySettings {
            max_attempts: self.max_attempts,
            base_delay_ms: self.base_delay_ms,
            max_delay_ms: self.max_delay_ms,
            backoff_multiplier_percent: self.backoff_multiplier_percent,
        }
    }

    /// Accepts exactly the settings within bounds; the fault names a field
    /// that is out of bounds.
    pub fn validate(&self) -> (r: Result<(), RetryFault>)
        ensures
            r is Ok <==> retry_settings_valid(*self),
            match r {
                Ok(_) => true,
                Err(f) => match f {
                    RetryFault::MaxAttempts => !(1 <= self.max_attempts <= 10),
                    RetryFault::BaseDelay => !(1 <= self.base_delay_ms <= 60000),
                    RetryFault::MaxDelay => !(self.base_delay_ms <= self.max_delay_ms <= 600000),
                    RetryFault::Multiplier => !(100 <= self.backoff_multiplier_percent <= 1000),
                },
            },
    {
        if self.max_attempts == 0 || self.max_attempts > 10 {
            return Err(RetryFault::MaxAttempts);
        }
        if self.base_delay_ms == 0 || self.base_delay_ms > 60000 {
            return Err(RetryFault::BaseDelay);
        }
        if self.max_delay_ms < self.base_delay_ms || self.max_delay_ms > 600000 {
            return Err(RetryFault::MaxDelay);
        }
        if self.backoff_multiplier_percent < 100 || self.backoff_multiplier_percent > 1000 {
            return Err(RetryFault::Multiplier);
        }
        Ok(())
    }
}

impl RetryConfig {
    /// The retry schedule a setting resolves to.
    pub fn from_settings(settings: &RetrySettings) -> (r: RetryConfig)
        ensures
            r.max_attempts == settings.max_attempts,
            r.base_delay_ms == settings.base_delay_ms,
            r.max_delay_ms == settings.max_delay_ms,
            r.backoff_multiplier_percent == settings.backoff_multiplier_percent,
    {
        RetryConfig {
            max_attempts: settings.max_attempts,
            base_delay_ms: settings.base_delay_ms,
            max_delay_ms: settings.max_delay_ms,
            backoff_multiplier_percent: settings.backoff_multiplier_percent,
        }
    }
}

/// One configured route: a local path and method mapped to an upstream
/// target, with header-forwarding policy and response handling.
pub struct EndpointConfig {
    /// Local route path.
    pub path: String,
    /// Target forwarding URL.
    pub target_url: String,
    /// HTTP method (GET, POST, PUT, DELETE, etc.).
    pub method: String,
    /// Response type declared for the upstream body.
    pub response_type: ResponseType,
    /// Custom request headers, applied after the forwarded ones.
    pub custom_headers: Vec<(String, String)>,
    /// Names of request headers to forward.
    pub forward_request_headers: Vec<String>,
    /// Names of response headers to forward.
    pub forward_response_headers: Vec<String>,
    /// Whether this endpoint is served at all.
    pub enabled: bool,
    /// Request timeout in seconds, overriding the global one.
    pub timeout: Option<u64>,
    /// Retry settings, overriding the global ones.
    pub retry: Option<RetrySettings>,
}

/// The scheme `url::Url::parse` reads from an absolute URL, or `None` when
/// the text does not parse as one.
pub uninterp spec fn parsed_url_scheme(s: Seq<char>) -> Option<Seq<char>>;

/// Relies on `url::Url::parse`: the parsed scheme is a pure function of the
/// text, and parsing fails exactly where this returns `None`.
#[verifier::external_body]
fn url_scheme(s: &str) -> (r: Option<String>)
    ensures
        match r {
            Some(sch) => parsed_url_scheme(s@) == Some(sch@),
            None => parsed_url_scheme(s@) is None,
        },
{
    match url::Url::parse(s) {
        Ok(u) => Some(u.scheme().to_string()),
        Err(_) => None,
    }
}

/// The target URL parses and uses the http or https scheme.
pub open spec fn target_url_valid(u: Seq<char>) -> bool {
    match parsed_url_scheme(u) {
        Some(sch) => sch == "http"@ || sch == "https"@,
        None => false,
    }
}

/// The method is one of the supported HTTP verbs, up to ASCII case.
pub open spec fn method_valid(m: Seq<char>) -> bool {
    ||| eq_ignore_case(m, "GET"@)
    ||| eq_ignore_case(m, "POST"@)
    ||| eq_ignore_case(m, "PUT"@)
    ||| eq_ignore_case(m, "DELETE"@)
    ||| eq_ignore_case(m, "PATCH"@)
    ||| eq_ignore_case(m, "HEAD"@)
    ||| eq_ignore_case(m, "OPTIONS"@)
}

/// A per-route timeout must lie between 1 and 3600 seconds.
pub open spec fn timeout_valid(t: Option<u64>) -> bool {
    match t {
        Some(secs) => 1 <= secs <= 3600,
        None => true,
    }
}

/// A header name must not be blank.
pub open spec fn header_name_valid(n: Seq<char>) -> bool {
    trim_spec(n).len() > 0
}

/// Everything `EndpointConfig::validate` checks, as one predicate.
pub open spec fn endpoint_valid(e: EndpointConfig) -> bool {
    &&& e.path@.len() > 0
    &&& e.path@[0] == '/'
    &&& e.target_url@.len() > 0
    &&& target_url_valid(e.target_url@)
    &&& method_valid(e.method@)
    &&& timeout_valid(e.timeout)
    &&& match e.retry {
        Some(r) => retry_settings_valid(r),
        None => true,
    }
    &&& forall|i: int|
        0 <= i < e.custom_headers@.len() ==> header_name_valid(#[trigger] e.custom_headers@[i].0@)
    &&& forall|i: int|
        0 <= i < e.forward_request_headers@.len() ==> header_name_valid(
            #[trigger] e.forward_request_headers@[i]@,
        )
    &&& forall|i: int|
        0 <= i < e.forward_response_headers@.len() ==> header_name_valid(
            #[trigger] e.forward_response_headers@[i]@,
        )
}

/// Why one endpoint was rejected.
#[derive(Clone, Copy, Debug, PartialEq, Eq, Structural)]
pub enum EndpointFault {
    EmptyPath,
    PathNotAbsolute,
    EmptyTargetUrl,
    BadTargetUrl,
    BadMethod,
    BadTimeout,
    BadRetry(RetryFault),
    BlankCustomHeader,
    BlankForwardRequestHeader,
    BlankForwardResponseHeader,
}

impl EndpointConfig {
    /// Accepts exactly the endpoints that [`endpoint_valid`] admits; the
    /// fault names a defect the endpoint has.
    pub fn validate(&self) -> (r: Result<(), EndpointFault>)
        ensures
            r is Ok <==> endpoint_valid(*self),
            match r {
                Ok(_) => true,
                Err(f) => match f {
                    EndpointFault::EmptyPath => self.path@.len() == 0,
                    EndpointFault::PathNotAbsolute => self.path@.len() > 0 && self.path@[0]
                        != '/',
                    EndpointFault::EmptyTargetUrl => self.target_url@.len() == 0,
                    EndpointFault::BadTargetUrl => !target_url_valid(self.target_url@),
                    EndpointFault::BadMethod => !method_valid(self.method@),
                    EndpointFault::BadTimeout => !timeout_valid(self.timeout),
                    EndpointFault::BadRetry(_) => match self.retry {
                        Some(rs) => !retry_settings_valid(rs),
                        None => false,
                    },
                    EndpointFault::BlankCustomHeader => exists|i: int|
                        0 <= i < self.custom_headers@.len() && !header_name_valid(
                            #[trigger] self.custom_headers@[i].0@,
                        ),
                    EndpointFault::BlankForwardRequestHeader => exists|i: int|
                        0 <= i < self.forward_request_headers@.len() && !header_name_valid(
                            #[trigger] self.forward_request_headers@[i]@,
                        ),
                    EndpointFault::BlankForwardResponseHeader => exists|i: int|
                        0 <= i < self.forward_response_headers@.len() && !header_name_valid(
                            #[trigger] self.forward_response_headers@[i]@,
                        ),
                },
            },
    {
        if self.path.as_str().is_empty() {
            return Err(EndpointFault::EmptyPath);
        }
        if self.path.as_str().get_char(0) != '/' {
            return Err(EndpointFault::PathNotAbsolute);
        }
        if self.target_url.as_str().is_empty() {
            return Err(EndpointFault::EmptyTargetUrl);
        }
        match url_scheme(self.target_url.as_str()) {
            Some(sch) => {
                if !(str_eq(sch.as_str(), "http") || str_eq(sch.as_str(), "https")) {
                    return Err(EndpointFault::BadTargetUrl);
                }
            },
            None => {
                return Err(EndpointFault::BadTargetUrl);
            },
        }
        if !method_allowed(self.method.as_str()) {
            return Err(EndpointFault::BadMethod);
        }
        match self.timeout {
            Some(secs) => {
                if secs == 0 || secs > 3600 {
                    return Err(EndpointFault::BadTimeout);
                }
            },
            None => {},
        }
        match &self.retry {
            Some(rs) => match rs.validate() {
                Ok(_) => {},
                Err(f) => {
                    return Err(EndpointFault::BadRetry(f));
                },
            },
            None => {},
        }
        let mut i: usize = 0;
        while i < self.custom_headers.len()
            invariant
                i <= self.custom_headers@.len(),
                forall|j: int|
                    0 <= j < i ==> header_name_valid(#[trigger] self.custom_headers@[j].0@),
            decreases self.custom_headers@.len() - i,
        {
            let t = str_trim(self.custom_headers[i].0.as_str());
            if t.as_str().is_empty() {
                return Err(EndpointFault::BlankCustomHeader);
            }
            i += 1;
        }
        let mut i: usize = 0;
        while i < self.forward_request_headers.len()
            invariant
                i <= self.forward_request_headers@.len(),
                forall|j: int|
                    0 <= j < i ==> header_name_valid(#[trigger] self.forward_request_headers@[j]@),
            decreases self.forward_request_headers@.len() - i,
        {
            let t = str_trim(self.forward_request_headers[i].as_str());
            if t.as_str().is_empty() {
                return Err(EndpointFault::BlankForwardRequestHeader);
            }
            i += 1;
        }
        let mut i: usize = 0;
        while i < self.forward_response_headers.len()
            invariant
                i <= self.forward_response_headers@.len(),
                forall|j: int|
                    0 <= j < i ==> header_name_valid(#[trigger] self.forward_response_headers@[j]@),
            decreases self.forward_response_headers@.len() - i,
        {
            let t = str_trim(self.forward_response_headers[i].as_str());
            if t.as_str().is_empty() {
                return Err(EndpointFault::BlankForwardResponseHeader);
            }
            i += 1;
        }
        Ok(())
    }

    /// The timeout this route resolves to, in seconds: its own, else the
    /// global one, else 30.
    pub fn get_timeout(&self, global_timeout: Option<u64>) -> (r: u64)
        ensures
            r == match self.timeout {
                Some(t) => t,
                None => match global_timeout {
                    Some(g) => g,
                    None => 30u64,
                },
            },
    {
        match self.timeout {
            Some(t) => t,
            None => match global_timeout {
                Some(g) => g,
                None => 30,
            },
        }
    }

    /// The retry schedule this route resolves to: its own settings, else the
    /// global ones, else the built-in default.
    pub fn get_retry_config(&self, global_retry: &Option<RetrySettings>) -> (r: RetryConfig)
        ensures
            match self.retry {
                Some(rs) => r == RetryConfig {
                    max_attempts: rs.max_attempts,
                    base_delay_ms: rs.base_delay_ms,
                    max_delay_ms: rs.max_delay_ms,
                    backoff_multiplier_percent: rs.backoff_multiplier_percent,
                },
                None => match global_retry {
                    Some(gs) => r == RetryConfig {
                        max_attempts: gs.max_attempts,
                        base_delay_ms: gs.base_delay_ms,
                        max_delay_ms: gs.max_delay_ms,
                        backoff_multiplier_percent: gs.backoff_multiplier_percent,
                    },
                    None => r.max_attempts == 3 && r.base_delay_ms == 100 && r.max_delay_ms
                        == 10000 && r.backoff_multiplier_percent == 200,
                },
            },
    {
        match &self.retry {
            Some(rs) => RetryConfig::from_settings(rs),
            None => match global_retry {
                Some(gs) => RetryConfig::from_settings(gs),
                None => RetryConfig::default(),
            },
        }
    }
}

/// The whole configuration handed in at startup.
pub struct ProxyConfig {
    pub endpoints: Vec<EndpointConfig>,
    /// Global request timeout in seconds.
    pub global_timeout: Option<u64>,
    /// Global retry settings.
    pub global_retry: Option<RetrySettings>,
}

/// Everything `ProxyConfig::validate` checks, as one predicate: at least one
/// endpoint, every endpoint valid, no duplicate path, and global settings in
/// bounds.
pub open spec fn config_valid(c: ProxyConfig) -> bool {
    &&& c.endpoints@.len() > 0
    &&& forall|i: int| 0 <= i < c.endpoints@.len() ==> endpoint_valid(#[trigger] c.endpoints@[i])
    &&& forall|i: int, j: int|
        0 <= i < j < c.endpoints@.len() ==> c.endpoints@[i].path@ != c.endpoints@[j].path@
    &&& timeout_valid(c.global_timeout)
    &&& match c.global_retry {
        Some(r) => retry_settings_valid(r),
        None => true,
    }
}

/// Why a whole configuration was rejected.
#[derive(Debug)]
pub enum ConfigFault {
    NoEndpoints,
    /// The endpoint at this position is malformed.
    Endpoint(usize, EndpointFault),
    /// The endpoint at this position repeats an earlier path.
    DuplicatePath(usize),
    BadGlobalTimeout,
    BadGlobalRetry(RetryFault),
}

/// A fault is sound for a configuration when it names a defect the
/// configuration really has.
pub open spec fn config_fault_sound(c: ProxyConfig, f: ConfigFault) -> bool {
    match f {
        ConfigFault::NoEndpoints => c.endpoints@.len() == 0,
        ConfigFault::Endpoint(i, _) => i < c.endpoints@.len() && !endpoint_valid(
            c.endpoints@[i as int],
        ),
        ConfigFault::DuplicatePath(i) => i < c.endpoints@.len() && exists|j: int|
            0 <= j < i && c.endpoints@[j].path@ == c.endpoints@[i as int].path@,
        ConfigFault::BadGlobalTimeout => !timeout_valid(c.global_timeout),
        ConfigFault::BadGlobalRetry(_) => match c.global_retry {
            Some(r) => !retry_settings_valid(r),
            None => false,
        },
    }
}

impl ProxyConfig {
    /// Accepts exactly the configurations that [`config_valid`] admits; a
    /// fault names a defect the configuration has.
    pub fn validate(&self) -> (r: Result<(), ConfigFault>)
        ensures
            r is Ok <==> config_valid(*self),
            match r {
                Ok(_) => true,
                Err(f) => config_fault_sound(*self, f),
            },
    {
        if self.endpoints.len() == 0 {
            return Err(ConfigFault::NoEndpoints);
        }
        let mut i: usize = 0;
        while i < self.endpoints.len()
            invariant
                i <= self.endpoints@.len(),
                forall|k: int| 0 <= k < i ==> endpoint_valid(#[trigger] self.endpoints@[k]),
                forall|k: int, j: int|
                    0 <= j < k < i ==> self.endpoints@[j].path@ != self.endpoints@[k].path@,
            decreases self.endpoints@.len() - i,
        {
            match self.endpoints[i].validate() {
                Ok(_) => {},
                Err(f) => {
                    return Err(ConfigFault::Endpoint(i, f));
                },
            }
            let mut j: usize = 0;
            while j < i
                invariant
                    j <= i < self.endpoints@.len(),
                    forall|k: int|
                        0 <= k < j ==> self.endpoints@[k].path@ != self.endpoints@[i as int].path@,
                decreases i - j,
            {
                if str_eq(self.endpoints[j].path.as_str(), self.endpoints[i].path.as_str()) {
                    return Err(ConfigFault::DuplicatePath(i));
                }
                j += 1;
            }
            i += 1;
        }
        match self.global_timeout {
            Some(secs) => {
                if secs == 0 || secs > 3600 {
                    return Err(ConfigFault::BadGlobalTimeout);
                }
            },
            None => {},
        }
        match &self.global_retry {
            Some(rs) => match rs.validate() {
                Ok(_) => {},
                Err(f) => {
                    return Err(ConfigFault::BadGlobalRetry(f));
                },
            },
            None => {},
        }
        Ok(())
    }
}

/// The subsequence of endpoints that are enabled, in order.
pub open spec fn enabled_seq(s: Seq<EndpointConfig>) -> Seq<EndpointConfig>
    decreases s,
{
    if s.len() == 0 {
        Seq::empty()
    } else if s[0].enabled {
        seq![s[0]] + enabled_seq(s.skip(1))
    } else {
        enabled_seq(s.skip(1))
    }
}

impl ProxyConfig {
    /// The enabled endpoints, in configuration order.
    pub fn enabled_endpoints(&self) -> (r: Vec<&EndpointConfig>)
        ensures
            r@.len() == enabled_seq(self.endpoints@).len(),
            forall|k: int| 0 <= k < r@.len() ==> *r@[k] == enabled_seq(self.endpoints@)[k],
    {
        let mut out: Vec<&EndpointConfig> = Vec::new();
        let mut i: usize = 0;
        proof {
            assert(self.endpoints@.skip(0) =~= self.endpoints@);
        }
        while i < self.endpoints.len()
            invariant
                i <= self.endpoints@.len(),
                out@.len() + enabled_seq(self.endpoints@.skip(i as int)).len() == enabled_seq(
                    self.endpoints@,
                ).len(),
                forall|k: int|
                    0 <= k < out@.len() ==> *out@[k] == enabled_seq(self.endpoints@)[k],
                enabled_seq(self.endpoints@) =~= enabled_seq(self.endpoints@).take(
                    out@.len() as int,
                ) + enabled_seq(self.endpoints@.skip(i as int)),
                forall|k: int|
                    0 <= k < out@.len() ==> enabled_seq(self.endpoints@)[k] == enabled_seq(
                        self.endpoints@,
                    ).take(out@.len() as int)[k],
            decreases self.endpoints@.len() - i,
        {
            proof {
                assert(self.endpoints@.skip(i as int)[0] == self.endpoints@[i as int]);
                assert(self.endpoints@.skip(i as int).skip(1) =~= self.endpoints@.skip(i + 1));
            }
            if self.endpoints[i].enabled {
                out.push(&self.endpoints[i]);
            }
            i += 1;
        }
        proof {
            assert(self.endpoints@.skip(self.endpoints@.len() as int) =~= Seq::empty());
        }
        out
    }
}

/// The forward lists shared by most built-in endpoints.
fn basic_forward_response_headers() -> Vec<String> {
    vec!["content-type".to_owned(), "cache-control".to_owned()]
}

impl Default for ProxyConfig {
    /// The built-in route table: the provider endpoints served when no
    /// configuration file is given, all enabled, with a 30 s global timeout
    /// and the default retry settings.
    fn default() -> (r: Self)
        ensures
            r.endpoints@.len() == 13,
            forall|i: int| 0 <= i < r.endpoints@.len() ==> (#[trigger] r.endpoints@[i]).enabled,
            r.global_timeout == Some(30u64),
            match r.global_retry {
                Some(g) => g.max_attempts == 3 && g.base_delay_ms == 100 && g.max_delay_ms
                    == 10000 && g.backoff_multiplier_percent == 200,
                None => false,
            },
    {
        let endpoints: Vec<EndpointConfig> = vec![
            // OpenAI compatible endpoint
            EndpointConfig {
                path: "/api/provider/openai/v1/chat/completions".to_owned(),
                target_url: "https://api-key.info/v1/chat/completions".to_owned(),
                method: "POST".to_owned(),
                response_type: ResponseType::Stream,
                custom_headers: Vec::new(),
                forward_request_headers: vec![
                    "authorization".to_owned(),
                    "content-type".to_owned(),
                    "user-agent".to_owned(),
                    "accept".to_owned(),
                    "accept-encoding".to_owned(),
                ],
                forward_response_headers: basic_forward_response_headers(),
                enabled: true,
                timeout: None,
                retry: None,
            },
            // OpenAI Responses API (streaming or chunked JSON)
            EndpointConfig {
                path: "/api/provider/openai/v1/responses".to_owned(),
                target_url: "https://api-key.info/v1/responses".to_owned(),
                method: "POST".to_owned(),
                response_type: ResponseType::Stream,
                custom_headers: Vec::new(),
                forward_request_headers: vec![
                    "authorization".to_owned(),
                    "content-type".to_owned(),
                    "user-agent".to_owned(),
                    "accept".to_owned(),
                    "accept-encoding".to_owned(),
                    "openai-beta".to_owned(),
                ],
                forward_response_headers: basic_forward_response_headers(),
                enabled: true,
                timeout: None,
                retry: None,
            },
            // Anthropic compatible endpoint
            EndpointConfig {
                path: "/api/provider/anthropic/v1/messages".to_owned(),
                target_url: "https://api-key.info/v1/messages".to_owned(),
                method: "POST".to_owned(),
                response_type: ResponseType::Stream,
                custom_headers: Vec::new(),
                forward_request_headers: vec![
                    "authorization".to_owned(),
                    "content-type".to_owned(),
                    "user-agent".to_owned(),
                    "accept".to_owned(),
                    "accept-encoding".to_owned(),
                    "anthropic-version".to_owned(),
                ],
                forward_response_headers: basic_forward_response_headers(),
                enabled: true,
                timeout: None,
                retry: None,
            },
            // LLM relay endpoint, pinned to the service credential
            EndpointConfig {
                path: "/api/tab/llm-proxy".to_owned(),
                target_url: "https://ampcode.com/api/tab/llm-proxy".to_owned(),
                method: "POST".to_owned(),
                response_type: ResponseType::Sse,
                custom_headers: Vec::new(),
                forward_request_headers: vec![
                    "authorization".to_owned(),
                    "user-agent".to_owned(),
                    "x-amp-feature".to_owned(),
                    "accept-language".to_owned(),
                    "sec-fetch-mode".to_owned(),
                ],
                forward_response_headers: vec![
                    "alt-svc".to_owned(),
                    "content-security-policy".to_owned(),
                    "fireworks-backend-host".to_owned(),
                    "fireworks-cached-prompt-tokens".to_owned(),
                    "fireworks-deployment".to_owned(),
                    "fireworks-generation-queue-duration".to_owned(),
                    "fireworks-num-concurrent-requests".to_owned(),
                    "fireworks-prefill-duration".to_owned(),
                    "fireworks-prefill-queue-duration".to_owned(),
                    "fireworks-prompt-tokens".to_owned(),
                    "fireworks-sampling-options".to_owned(),
                    "fireworks-server-time-to-first-token".to_owned(),
                    "fireworks-speculation-matched-tokens".to_owned(),
                    "fireworks-speculation-prompt-tokens".to_owned(),
                    "fireworks-tokenizer-duration".to_owned(),
                    "fireworks-tokenizer-queue-duration".to_owned(),
                ],
                enabled: true,
                timeout: None,
                retry: None,
            },
            // Google Gemini streaming content generation
            EndpointConfig {
                path: "/api/provider/google/v1beta/models/gemini-pro:streamGenerateContent"
                    .to_owned(),
                target_url: "https://api-key.info/v1beta/models/gemini-pro:streamGenerateContent"
                    .to_owned(),
                method: "POST".to_owned(),
                response_type: ResponseType::Sse,
                custom_headers: Vec::new(),
                forward_request_headers: vec![
                    "authorization".to_owned(),
                    "content-type".to_owned(),
                    "user-agent".to_owned(),
                    "accept".to_owned(),
                    "accept-encoding".to_owned(),
                ],
                forward_response_headers: basic_forward_response_headers(),
                enabled: true,
                timeout: None,
                retry: None,
            },
            // Google Gemini non-streaming content generation
            EndpointConfig {
                path: "/api/provider/google/v1beta/models/gemini-pro:generateContent".to_owned(),
                target_url: "https://api-key.info/v1beta/models/gemini-pro:generateContent"
                    .to_owned(),
                method: "POST".to_owned(),
                response_type: ResponseType::Json,
                custom_headers: Vec::new(),
                forward_request_headers: vec![
                    "authorization".to_owned(),
                    "content-type".to_owned(),
                    "user-agent".to_owned(),
                    "accept".to_owned(),
                    "accept-encoding".to_owned(),
                ],
                forward_response_headers: basic_forward_response_headers(),
                enabled: true,
                timeout: None,
                retry: None,
            },
            // Google Gemini models list
            EndpointConfig {
                path: "/api/provider/google/v1beta/models".to_owned(),
                target_url: "https://api-key.info/v1beta/models".to_owned(),
                method: "GET".to_owned(),
                response_type: ResponseType::Json,
                custom_headers: Vec::new(),
                forward_request_headers: vec![
                    "authorization".to_owned(),
                    "user-agent".to_owned(),
                    "accept".to_owned(),
                    "accept-encoding".to_owned(),
                ],
                forward_response_headers: basic_forward_response_headers(),
                enabled: true,
                timeout: None,
                retry: None,
            },
            // Google Gemini text embedding
            EndpointConfig {
                path: "/api/provider/google/v1beta/models/embedding-001:embedContent".to_owned(),
                target_url: "https://api-key.info/v1beta/models/embedding-001:embedContent"
                    .to_owned(),
                method: "POST".to_owned(),
                response_type: ResponseType::Json,
                custom_headers: Vec::new(),
                forward_request_headers: vec![
                    "authorization".to_owned(),
                    "content-type".to_owned(),
                    "user-agent".to_owned(),
                    "accept".to_owned(),
                    "accept-encoding".to_owned(),
                ],
                forward_response_headers: basic_forward_response_headers(),
                enabled: true,
                timeout: None,
                retry: None,
            },
            // Google Gemini 2.5 Flash streaming
            EndpointConfig {
                path:
                    "/api/provider/google/v1beta/models/gemini-2.5-flash-preview-05-20:streamGenerateContent"
                    .to_owned(),
                target_url:
                    "https://api-key.info/v1beta/models/gemini-2.5-flash-preview-05-20:streamGenerateContent"
                    .to_owned(),
                method: "POST".to_owned(),
                response_type: ResponseType::Sse,
                custom_headers: Vec::new(),
                forward_request_headers: vec![
                    "authorization".to_owned(),
                    "content-type".to_owned(),
                    "user-agent".to_owned(),
                    "accept".to_owned(),
                    "accept-encoding".to_owned(),
                ],
                forward_response_headers: basic_forward_response_headers(),
                enabled: true,
                timeout: None,
                retry: None,
            },
            // Google Gemini 2.5 Flash non-streaming
            EndpointConfig {
                path:
                    "/api/provider/google/v1beta/models/gemini-2.5-flash-preview-05-20:generateContent"
                    .to_owned(),
                target_url:
                    "https://api-key.info/v1beta/models/gemini-2.5-flash-preview-05-20:generateContent"
                    .to_owned(),
                method: "POST".to_owned(),
                response_type: ResponseType::Json,
                custom_headers: Vec::new(),
                forward_request_headers: vec![
                    "authorization".to_owned(),
                    "content-type".to_owned(),
                    "user-agent".to_owned(),
                    "accept".to_owned(),
                    "accept-encoding".to_owned(),
                ],
                forward_response_headers: basic_forward_response_headers(),
                enabled: true,
                timeout: None,
                retry: None,
            },
            // OpenAI models list
            EndpointConfig {
                path: "/api/provider/openai/v1/models".to_owned(),
                target_url: "https://api-key.info/v1/models".to_owned(),
                method: "GET".to_owned(),
                response_type: ResponseType::Json,
                custom_headers: Vec::new(),
                forward_request_headers: vec![
                    "authorization".to_owned(),
                    "user-agent".to_owned(),
                    "accept".to_owned(),
                    "accept-encoding".to_owned(),
                    "openai-beta".to_owned(),
                ],
                forward_response_headers: basic_forward_response_headers(),
                enabled: true,
                timeout: None,
                retry: None,
            },
            // OpenAI embeddings
            EndpointConfig {
                path: "/api/provider/openai/v1/embeddings".to_owned(),
                target_url: "https://api-key.info/v1/embeddings".to_owned(),
                method: "POST".to_owned(),
                response_type: ResponseType::Json,
                custom_headers: Vec::new(),
                forward_request_headers: vec![
                    "authorization".to_owned(),
                    "content-type".to_owned(),
                    "user-agent".to_owned(),
                    "accept".to_owned(),
                    "accept-encoding".to_owned(),
                    "openai-beta".to_owned(),
                ],
                forward_response_headers: basic_forward_response_headers(),
                enabled: true,
                timeout: None,
                retry: None,
            },
            // Cerebras OpenAI-compatible endpoint
            EndpointConfig {
                path: "/api/provider/cerebras/v1/chat/completions".to_owned(),
                target_url: "https://api-key.info/v1/chat/completions".to_owned(),
                method: "POST".to_owned(),
                response_type: ResponseType::Stream,
                custom_headers: Vec::new(),
                forward_request_headers: vec![
                    "authorization".to_owned(),
                    "content-type".to_owned(),
                    "user-agent".to_owned(),
                    "accept".to_owned(),
                    "accept-encoding".to_owned(),
                ],
                forward_response_headers: basic_forward_response_headers(),
                enabled: true,
                timeout: None,
                retry: None,
            },
        ];
        ProxyConfig {
            endpoints,
            global_timeout: Some(30),
            global_retry: Some(RetrySettings::default()),
        }
    }
}

/// Index of the first route serving `path` with `method`, or -1.
pub open spec fn route_idx(s: Seq<EndpointConfig>, path: Seq<char>, method: Seq<char>) -> int
    decreases s,
{
    if s.len() == 0 {
        -1
    } else if s[0].path@ == path && eq_ignore_case(s[0].method@, method) {
        0
    } else if route_idx(s.skip(1), path, method) == -1 {
        -1
    } else {
        1 + route_idx(s.skip(1), path, method)
    }
}

/// When `i` is the first index serving `path` with `method`, `route_idx`
/// finds exactly `i`.
proof fn lemma_route_idx_at(s: Seq<EndpointConfig>, path: Seq<char>, method: Seq<char>, i: int)
    requires
        0 <= i < s.len(),
        s[i].path@ == path && eq_ignore_case(s[i].method@, method),
        forall|j: int|
            0 <= j < i ==> !(s[j].path@ == path && eq_ignore_case(#[trigger] s[j].method@, method)),
    ensures
        route_idx(s, path, method) == i,
    decreases s.len(),
{
    if i == 0 {
    } else {
        assert(forall|j: int| 1 <= j < s.len() ==> s[j] == s.skip(1)[j - 1]);
        lemma_route_idx_at(s.skip(1), path, method, i - 1);
    }
}

proof fn lemma_route_idx_none(s: Seq<EndpointConfig>, path: Seq<char>, method: Seq<char>)
    requires
        forall|j: int|
            0 <= j < s.len() ==> !(s[j].path@ == path && eq_ignore_case(
                #[trigger] s[j].method@,
                method,
            )),
    ensures
        route_idx(s, path, method) == -1,
    decreases s.len(),
{
    if s.len() > 0 {
        assert(forall|j: int| 1 <= j < s.len() ==> s[j] == s.skip(1)[j - 1]);
        lemma_route_idx_none(s.skip(1), path, method);
    }
}

/// The immutable, process-lifetime table of enabled routes, built once from
/// a validated configuration. Lookup is by exact path and case-insensitive
/// method; no mutation exists after construction.
pub struct RouteTable {
    routes: Vec<EndpointConfig>,
    global_timeout: Option<u64>,
    global_retry: Option<RetrySettings>,
}

impl RouteTable {
    pub closed spec fn routes_spec(&self) -> Seq<EndpointConfig> {
        self.routes@
    }

    pub closed spec fn global_timeout_spec(&self) -> Option<u64> {
        self.global_timeout
    }

    pub closed spec fn global_retry_spec(&self) -> Option<RetrySettings> {
        self.global_retry
    }

    /// Builds the table from a configuration: rejects exactly what
    /// [`config_valid`] rejects and keeps the enabled endpoints, in order.
    pub fn new(config: ProxyConfig) -> (r: Result<RouteTable, ConfigFault>)
        ensures
            r is Ok <==> config_valid(config),
            match r {
                Ok(t) => {
                    &&& t.routes_spec() == enabled_seq(config.endpoints@)
                    &&& t.global_timeout_spec() == config.global_timeout
                    &&& t.global_retry_spec() == config.global_retry
                },
                Err(f) => config_fault_sound(config, f),
            },
    {
        match config.validate() {
            Ok(_) => {},
            Err(f) => {
                return Err(f);
            },
        }
        let ProxyConfig { mut endpoints, global_timeout, global_retry } = config;
        let ghost orig = endpoints@;
        let mut routes: Vec<EndpointConfig> = Vec::new();
        proof {
            assert(routes@ + enabled_seq(endpoints@) =~= enabled_seq(orig));
        }
        while endpoints.len() > 0
            invariant
                routes@ + enabled_seq(endpoints@) == enabled_seq(orig),
            decreases endpoints@.len(),
        {
            let ghost before = endpoints@;
            let ghost routes_before = routes@;
            let e = endpoints.remove(0);
            proof {
                assert(endpoints@ =~= before.skip(1));
                if e.enabled {
                    assert(routes_before.push(e) + enabled_seq(before.skip(1)) =~= routes_before
                        + enabled_seq(before));
                } else {
                    assert(routes_before + enabled_seq(before.skip(1)) =~= routes_before
                        + enabled_seq(before));
                }
            }
            if e.enabled {
                routes.push(e);
            }
        }
        proof {
            assert(routes@ + enabled_seq(endpoints@) =~= routes@);
        }
        Ok(RouteTable { routes, global_timeout, global_retry })
    }

    /// The routes of this table, in configuration order.
    pub fn routes(&self) -> (r: &Vec<EndpointConfig>)
        ensures
            r@ == self.routes_spec(),
    {
        &self.routes
    }

    /// The route serving `path` with `method`, if the table has one.
    pub fn lookup<'a>(&'a self, path: &str, method: &str) -> (r: Option<&'a EndpointConfig>)
        ensures
            match r {
                Some(e) => {
                    let x = route_idx(self.routes_spec(), path@, method@);
                    x != -1 && *e == self.routes_spec()[x]
                },
                None => route_idx(self.routes_spec(), path@, method@) == -1,
            },
    {
        let mut i: usize = 0;
        while i < self.routes.len()
            invariant
                i <= self.routes@.len(),
                forall|j: int|
                    0 <= j < i ==> !(self.routes@[j].path@ == path@ && eq_ignore_case(
                        #[trigger] self.routes@[j].method@,
                        method@,
                    )),
            decreases self.routes@.len() - i,
        {
            if str_eq(self.routes[i].path.as_str(), path) && str_eq_ignore_case(
                self.routes[i].method.as_str(),
                method,
            ) {
                proof {
                    lemma_route_idx_at(self.routes@, path@, method@, i as int);
                }
                return Some(&self.routes[i]);
            }
            i += 1;
        }
        proof {
            lemma_route_idx_none(self.routes@, path@, method@);
        }
        None
    }

    /// The timeout and retry schedule resolved for one route of this table.
    pub fn resolve_retry(&self, e: &EndpointConfig) -> (r: RetryConfig)
        ensures
            match e.retry {
                Some(rs) => r == RetryConfig {
                    max_attempts: rs.max_attempts,
                    base_delay_ms: rs.base_delay_ms,
                    max_delay_ms: rs.max_delay_ms,
                    backoff_multiplier_percent: rs.backoff_multiplier_percent,
                },
                None => match self.global_retry_spec() {
                    Some(gs) => r == RetryConfig {
                        max_attempts: gs.max_attempts,
                        base_delay_ms: gs.base_delay_ms,
                        max_delay_ms: gs.max_delay_ms,
                        backoff_multiplier_percent: gs.backoff_multiplier_percent,
                    },
                    None => r.max_attempts == 3 && r.base_delay_ms == 100 && r.max_delay_ms
                        == 10000 && r.backoff_multiplier_percent == 200,
                },
            },
    {
        e.get_retry_config(&self.global_retry)
    }

    /// The timeout in seconds resolved for one route of this table.
    pub fn resolve_timeout(&self, e: &EndpointConfig) -> (r: u64)
        ensures
            r == match e.timeout {
                Some(t) => t,
                None => match self.global_timeout_spec() {
                    Some(g) => g,
                    None => 30u64,
                },
            },
    {
        e.get_timeout(self.global_timeout)
    }
}

impl EndpointConfig {
    /// A copy of this route whose every field carries the same values.
    pub fn duplicate(&self) -> (r: EndpointConfig)
        ensures
            r.path@ == self.path@,
            r.target_url@ == self.target_url@,
            r.method@ == self.method@,
            r.response_type == self.response_type,
            r.custom_headers.deep_view() == self.custom_headers.deep_view(),
            r.forward_request_headers.deep_view() == self.forward_request_headers.deep_view(),
            r.forward_response_headers.deep_view() == self.forward_response_headers.deep_view(),
            r.enabled == self.enabled,
            r.timeout == self.timeout,
            r.retry == self.retry,
    {
        EndpointConfig {
            path: self.path.clone(),
            target_url: self.target_url.clone(),
            method: self.method.clone(),
            response_type: self.response_type,
            custom_headers: copy_pairs(&self.custom_headers),
            forward_request_headers: copy_strings(&self.forward_request_headers),
            forward_response_headers: copy_strings(&self.forward_response_headers),
            enabled: self.enabled,
            timeout: self.timeout,
            retry: match &self.retry {
                Some(rs) => Some(rs.duplicate()),
                None => None,
            },
        }
    }
}

/// A copy of a string list, element by element.
fn copy_strings(v: &Vec<String>) -> (r: Vec<String>)
    ensures
        r.deep_view() == v.deep_view(),
{
    let mut out: Vec<String> = Vec::new();
    let mut i: usize = 0;
    while i < v.len()
        invariant
            i <= v@.len(),
            out@.len() == i,
            forall|j: int| 0 <= j < i ==> out@[j]@ == (#[trigger] v@[j])@,
        decreases v@.len() - i,
    {
        out.push(v[i].clone());
        i += 1;
    }
    proof {
        assert(out.deep_view() =~= v.deep_view());
    }
    out
}

/// A copy of a name/value list, element by element.
fn copy_pairs(v: &Vec<(String, String)>) -> (r: Vec<(String, String)>)
    ensures
        r.deep_view() == v.deep_view(),
{
    let mut out: Vec<(String, String)> = Vec::new();
    let mut i: usize = 0;
    while i < v.len()
        invariant
            i <= v@.len(),
            out@.len() == i,
            forall|j: int|
                0 <= j < i ==> out@[j].0@ == (#[trigger] v@[j]).0@ && out@[j].1@ == v@[j].1@,
        decreases v@.len() - i,
    {
        out.push((v[i].0.clone(), v[i].1.clone()));
        i += 1;
    }
    proof {
        assert(out.deep_view() =~= v.deep_view());
    }
    out
}

/// The supported HTTP verbs, compared case-insensitively.
fn method_allowed(m: &str) -> (r: bool)
    ensures
        r == method_valid(m@),
{
    str_eq_ignore_case(m, "GET") || str_eq_ignore_case(m, "POST") || str_eq_ignore_case(m, "PUT")
        || str_eq_ignore_case(m, "DELETE") || str_eq_ignore_case(m, "PATCH")
        || str_eq_ignore_case(m, "HEAD") || str_eq_ignore_case(m, "OPTIONS")
}

} // verus!
