//! Error taxonomy of the proxy and the retry classification.
//!
//! The backoff multiplier is carried in percent (200 means doubling), so the
//! whole schedule stays in integer arithmetic.

use vstd::prelude::*;

verus! {

/// A failure of one proxied request, mapped to a response status by
/// [`ProxyError::status_code`].
#[derive(Debug)]
pub enum ProxyError {
    /// Malformed inbound body or route mismatch.
    InvalidRequest(String),
    /// The upstream answered with the carried status code.
    UpstreamError(u16, String),
    /// The outbound call failed below HTTP.
    NetworkError(String),
    /// The outbound call timed out.
    TimeoutError,
    /// The configuration was rejected at startup.
    ConfigurationError(String),
    /// A protocol converter could not read a body shape.
    ConversionError(String),
}

impl ProxyError {
    /// The response status this failure surfaces as.
    pub fn status_code(&self) -> (r: u16)
        ensures
            r == match self {
                ProxyError::InvalidRequest(_) => 400u16,
                ProxyError::UpstreamError(s, _) => *s,
                ProxyError::NetworkError(_) => 502u16,
                ProxyError::TimeoutError => 504u16,
                ProxyError::ConfigurationError(_) => 500u16,
                ProxyError::ConversionError(_) => 500u16,
            },
    {
        match self {
            ProxyError::InvalidRequest(_) => 400,
            ProxyError::UpstreamError(s, _) => *s,
            ProxyError::NetworkError(_) => 502,
            ProxyError::TimeoutError => 504,
            ProxyError::ConfigurationError(_) => 500,
            ProxyError::ConversionError(_) => 500,
        }
    }

    /// The wire label used for this failure in an error body.
    pub fn kind_label(&self) -> (r: &'static str)
        ensures
            r@ == match self {
                ProxyError::InvalidRequest(_) => "invalid_request_error"@,
                ProxyError::UpstreamError(_, _) => "api_error"@,
                ProxyError::NetworkError(_) => "connection_error"@,
                ProxyError::TimeoutError => "timeout_error"@,
                ProxyError::ConfigurationError(_) => "server_error"@,
                ProxyError::ConversionError(_) => "conversion_error"@,
            },
    {
        match self {
            ProxyError::InvalidRequest(_) => "invalid_request_error",
            ProxyError::UpstreamError(_, _) => "api_error",
            ProxyError::NetworkError(_) => "connection_error",
            ProxyError::TimeoutError => "timeout_error",
            ProxyError::ConfigurationError(_) => "server_error",
            ProxyError::ConversionError(_) => "conversion_error",
        }
    }
}

/// The decimal digit characters of `n`, most significant first.
pub open spec fn dec_digits(n: nat) -> Seq<char>
    decreases n,
{
    if n < 10 {
        seq![digit_char(n)]
    } else {
        dec_digits(n / 10).push(digit_char(n % 10))
    }
}

/// The character of one decimal digit.
pub open spec fn digit_char(d: nat) -> char {
    if d == 0 {
        '0'
    } else if d == 1 {
        '1'
    } else if d == 2 {
        '2'
    } else if d == 3 {
        '3'
    } else if d == 4 {
        '4'
    } else if d == 5 {
        '5'
    } else if d == 6 {
        '6'
    } else if d == 7 {
        '7'
    } else if d == 8 {
        '8'
    } else {
        '9'
    }
}

/// The text of one decimal digit.
fn digit_str(d: u16) -> (r: &'static str)
    requires
        d < 10,
    ensures
        r@ == seq![digit_char(d as nat)],
{
    proof {
        reveal_strlit("0");
        reveal_strlit("1");
        reveal_strlit("2");
        reveal_strlit("3");
        reveal_strlit("4");
        reveal_strlit("5");
        reveal_strlit("6");
        reveal_strlit("7");
        reveal_strlit("8");
        reveal_strlit("9");
    }
    let r = match d {
        0 => "0",
        1 => "1",
        2 => "2",
        3 => "3",
        4 => "4",
        5 => "5",
        6 => "6",
        7 => "7",
        8 => "8",
        _ => "9",
    };
    proof {
        assert(r@ =~= seq![digit_char(d as nat)]);
    }
    r
}

/// The decimal text of a status code.
pub fn u16_to_string(n: u16) -> (r: String)
    ensures
        r@ == dec_digits(n as nat),
    decreases n,
{
    if n < 10 {
        digit_str(n).to_owned()
    } else {
        let mut s = u16_to_string(n / 10);
        s.append(digit_str(n % 10));
        proof {
            assert(s@ =~= dec_digits(n as nat));
        }
        s
    }
}

impl ProxyError {
    /// The readable message of this failure.
    pub fn message(&self) -> (r: String)
        ensures
            r@ == match self {
                ProxyError::InvalidRequest(m) => "Invalid request: "@ + m@,
                ProxyError::UpstreamError(s, m) => "Upstream error ("@ + dec_digits(*s as nat)
                    + "): "@ + m@,
                ProxyError::NetworkError(m) => "Network error: "@ + m@,
                ProxyError::TimeoutError => "Request timeout"@,
                ProxyError::ConfigurationError(m) => "Configuration error: "@ + m@,
                ProxyError::ConversionError(m) => "Conversion error: "@ + m@,
            },
    {
        match self {
            ProxyError::InvalidRequest(m) => {
                let mut r = "Invalid request: ".to_owned();
                r.append(m.as_str());
                r
            },
            ProxyError::UpstreamError(s, m) => {
                let mut r = "Upstream error (".to_owned();
                let num = u16_to_string(*s);
                r.append(num.as_str());
                r.append("): ");
                r.append(m.as_str());
                r
            },
            ProxyError::NetworkError(m) => {
                let mut r = "Network error: ".to_owned();
                r.append(m.as_str());
                r
            },
            ProxyError::TimeoutError => "Request timeout".to_owned(),
            ProxyError::ConfigurationError(m) => {
                let mut r = "Configuration error: ".to_owned();
                r.append(m.as_str());
                r
            },
            ProxyError::ConversionError(m) => {
                let mut r = "Conversion error: ".to_owned();
                r.append(m.as_str());
                r
            },
        }
    }
}

/// Whether a failure may be retried: network failures and timeouts always,
/// upstream failures only on a server error (5xx) or 429.
pub open spec fn retriable(e: ProxyError) -> bool {
    match e {
        ProxyError::NetworkError(_) => true,
        ProxyError::TimeoutError => true,
        ProxyError::UpstreamError(s, _) => (500 <= s < 600) || s == 429,
        _ => false,
    }
}

pub fn is_retriable_error(error: &ProxyError) -> (r: bool)
    ensures
        r == retriable(*error),
{
    match error {
        ProxyError::NetworkError(_) => true,
        ProxyError::TimeoutError => true,
        ProxyError::UpstreamError(s, _) => (500 <= *s && *s < 600) || *s == 429,
        _ => false,
    }
}

/// The resolved retry schedule of a route: attempt count, initial and
/// maximal delay, and the growth factor in percent.
#[derive(Clone, Copy, Debug, PartialEq, Eq, Structural)]
pub struct RetryConfig {
    pub max_attempts: u32,
    pub base_delay_ms: u64,
    pub max_delay_ms: u64,
    pub backoff_multiplier_percent: u32,
}

impl Default for RetryConfig {
    /// Three attempts, 100 ms growing twofold up to 10 s.
    fn default() -> (r: Self)
        ensures
            r.max_attempts == 3,
            r.base_delay_ms == 100,
            r.max_delay_ms == 10000,
            r.backoff_multiplier_percent == 200,
    {
        RetryConfig { max_attempts: 3, base_delay_ms: 100, max_delay_ms: 10000, backoff_multiplier_percent: 200 }
    }
}

/// The delay that follows `delay_ms` in an exponential backoff schedule:
/// grown by the multiplier, capped at the configured maximum.
pub fn next_backoff_delay(delay_ms: u64, config: &RetryConfig) -> (r: u64)
    requires
        delay_ms <= 600000,
        config.backoff_multiplier_percent <= 1000,
    ensures
        r == if delay_ms * config.backoff_multiplier_percent / 100 <= config.max_delay_ms {
            delay_ms * config.backoff_multiplier_percent / 100
        } else {
            config.max_delay_ms as int
        },
{
    proof {
        assert(delay_ms * config.backoff_multiplier_percent <= 600000 * 1000) by (nonlinear_arith)
            requires
                delay_ms <= 600000,
                config.backoff_multiplier_percent <= 1000,
        ;
    }
    let grown: u64 = delay_ms * (config.backoff_multiplier_percent as u64) / 100;
    if grown <= config.max_delay_ms {
        grown
    } else {
        config.max_delay_ms
    }
}

} // verus!
