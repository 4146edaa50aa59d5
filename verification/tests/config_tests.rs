use amp_proxy::config::{
    ConfigFault, EndpointConfig, EndpointFault, ProxyConfig, ResponseType, RetryFault,
    RetrySettings, RouteTable,
};
use amp_proxy::error::{is_retriable_error, next_backoff_delay, ProxyError, RetryConfig};

fn ep(path: &str, url: &str, method: &str) -> EndpointConfig {
    EndpointConfig {
        path: path.to_owned(),
        target_url: url.to_owned(),
        method: method.to_owned(),
        response_type: ResponseType::Json,
        custom_headers: Vec::new(),
        forward_request_headers: vec!["authorization".to_owned()],
        forward_response_headers: vec!["content-type".to_owned()],
        enabled: true,
        timeout: None,
        retry: None,
    }
}

fn cfg(endpoints: Vec<EndpointConfig>) -> ProxyConfig {
    ProxyConfig { endpoints, global_timeout: Some(30), global_retry: None }
}

#[test]
fn valid_config_accepted() {
    let c = cfg(vec![ep("/a", "https://example.com/a", "POST")]);
    assert!(c.validate().is_ok());
}

#[test]
fn empty_endpoint_list_rejected() {
    let c = cfg(Vec::new());
    assert!(matches!(c.validate(), Err(ConfigFault::NoEndpoints)));
}

#[test]
fn duplicate_path_rejected() {
    let c = cfg(vec![
        ep("/a", "https://example.com/a", "POST"),
        ep("/a", "https://example.com/b", "GET"),
    ]);
    assert!(matches!(c.validate(), Err(ConfigFault::DuplicatePath(1))));
}

#[test]
fn relative_path_rejected() {
    let c = cfg(vec![ep("a", "https://example.com/a", "POST")]);
    assert!(matches!(
        c.validate(),
        Err(ConfigFault::Endpoint(0, EndpointFault::PathNotAbsolute))
    ));
}

#[test]
fn empty_path_rejected() {
    let e = ep("", "https://example.com/a", "POST");
    assert!(matches!(e.validate(), Err(EndpointFault::EmptyPath)));
}

#[test]
fn unsupported_method_rejected() {
    let e = ep("/a", "https://example.com/a", "FETCH");
    assert!(matches!(e.validate(), Err(EndpointFault::BadMethod)));
}

#[test]
fn method_case_insensitive() {
    assert!(ep("/a", "https://example.com/a", "post").validate().is_ok());
    assert!(ep("/a", "https://example.com/a", "Options").validate().is_ok());
}

#[test]
fn bad_scheme_rejected() {
    let e = ep("/a", "ftp://example.com/a", "POST");
    assert!(matches!(e.validate(), Err(EndpointFault::BadTargetUrl)));
}

#[test]
fn unparsable_url_rejected() {
    let e = ep("/a", "not a url", "POST");
    assert!(matches!(e.validate(), Err(EndpointFault::BadTargetUrl)));
}

#[test]
fn empty_url_rejected() {
    let e = ep("/a", "", "POST");
    assert!(matches!(e.validate(), Err(EndpointFault::EmptyTargetUrl)));
}

#[test]
fn out_of_bounds_timeout_rejected() {
    let mut e = ep("/a", "https://example.com/a", "POST");
    e.timeout = Some(0);
    assert!(matches!(e.validate(), Err(EndpointFault::BadTimeout)));
    e.timeout = Some(3601);
    assert!(matches!(e.validate(), Err(EndpointFault::BadTimeout)));
    e.timeout = Some(3600);
    assert!(e.validate().is_ok());
}

#[test]
fn out_of_bounds_retry_rejected() {
    let mk = |attempts: u32, base: u64, max: u64, pct: u32| RetrySettings {
        max_attempts: attempts,
        base_delay_ms: base,
        max_delay_ms: max,
        backoff_multiplier_percent: pct,
    };
    assert!(matches!(mk(0, 100, 1000, 200).validate(), Err(RetryFault::MaxAttempts)));
    assert!(matches!(mk(11, 100, 1000, 200).validate(), Err(RetryFault::MaxAttempts)));
    assert!(matches!(mk(3, 0, 1000, 200).validate(), Err(RetryFault::BaseDelay)));
    assert!(matches!(mk(3, 60001, 100000, 200).validate(), Err(RetryFault::BaseDelay)));
    assert!(matches!(mk(3, 100, 50, 200).validate(), Err(RetryFault::MaxDelay)));
    assert!(matches!(mk(3, 100, 600001, 200).validate(), Err(RetryFault::MaxDelay)));
    assert!(matches!(mk(3, 100, 1000, 99).validate(), Err(RetryFault::Multiplier)));
    assert!(matches!(mk(3, 100, 1000, 1001).validate(), Err(RetryFault::Multiplier)));
    assert!(mk(3, 100, 1000, 200).validate().is_ok());
}

#[test]
fn blank_header_name_rejected() {
    let mut e = ep("/a", "https://example.com/a", "POST");
    e.forward_request_headers = vec!["  ".to_owned()];
    assert!(matches!(e.validate(), Err(EndpointFault::BlankForwardRequestHeader)));
    let mut e = ep("/a", "https://example.com/a", "POST");
    e.custom_headers = vec![(" ".to_owned(), "v".to_owned())];
    assert!(matches!(e.validate(), Err(EndpointFault::BlankCustomHeader)));
    let mut e = ep("/a", "https://example.com/a", "POST");
    e.forward_response_headers = vec!["".to_owned()];
    assert!(matches!(e.validate(), Err(EndpointFault::BlankForwardResponseHeader)));
}

#[test]
fn default_config_is_valid() {
    let c = ProxyConfig::default();
    assert_eq!(c.endpoints.len(), 13);
    assert!(c.validate().is_ok());
    assert_eq!(c.enabled_endpoints().len(), 13);
    assert_eq!(c.global_timeout, Some(30));
}

#[test]
fn route_table_keeps_enabled_routes_in_order() {
    let mut disabled = ep("/b", "https://example.com/b", "GET");
    disabled.enabled = false;
    let c = ProxyConfig {
        endpoints: vec![
            ep("/a", "https://example.com/a", "POST"),
            disabled,
            ep("/c", "https://example.com/c", "GET"),
        ],
        global_timeout: None,
        global_retry: None,
    };
    let t = RouteTable::new(c).unwrap();
    assert!(t.lookup("/a", "POST").is_some());
    assert!(t.lookup("/a", "post").is_some());
    assert!(t.lookup("/a", "GET").is_none());
    assert!(t.lookup("/b", "GET").is_none());
    assert!(t.lookup("/c", "GET").is_some());
    assert!(t.lookup("/missing", "GET").is_none());
}

#[test]
fn route_table_rejects_invalid_config() {
    let c = cfg(vec![ep("/a", "https://example.com/a", "POST"), ep("/a", "https://x.org", "GET")]);
    assert!(matches!(RouteTable::new(c), Err(ConfigFault::DuplicatePath(1))));
}

#[test]
fn timeout_resolution_order() {
    let mut e = ep("/a", "https://example.com/a", "POST");
    assert_eq!(e.get_timeout(None), 30);
    assert_eq!(e.get_timeout(Some(60)), 60);
    e.timeout = Some(5);
    assert_eq!(e.get_timeout(Some(60)), 5);
}

#[test]
fn retry_resolution_order() {
    let mut e = ep("/a", "https://example.com/a", "POST");
    let r = e.get_retry_config(&None);
    assert_eq!(r.max_attempts, 3);
    assert_eq!(r.base_delay_ms, 100);
    assert_eq!(r.max_delay_ms, 10000);
    assert_eq!(r.backoff_multiplier_percent, 200);
    let global = Some(RetrySettings {
        max_attempts: 5,
        base_delay_ms: 50,
        max_delay_ms: 2000,
        backoff_multiplier_percent: 300,
    });
    assert_eq!(e.get_retry_config(&global).max_attempts, 5);
    e.retry = Some(RetrySettings {
        max_attempts: 7,
        base_delay_ms: 10,
        max_delay_ms: 100,
        backoff_multiplier_percent: 150,
    });
    assert_eq!(e.get_retry_config(&global).max_attempts, 7);
}

#[test]
fn backoff_grows_and_caps() {
    let cfg = RetryConfig {
        max_attempts: 3,
        base_delay_ms: 100,
        max_delay_ms: 1000,
        backoff_multiplier_percent: 200,
    };
    assert_eq!(next_backoff_delay(100, &cfg), 200);
    assert_eq!(next_backoff_delay(400, &cfg), 800);
    assert_eq!(next_backoff_delay(800, &cfg), 1000);
}

#[test]
fn retriability_classification() {
    assert!(is_retriable_error(&ProxyError::NetworkError("x".to_owned())));
    assert!(is_retriable_error(&ProxyError::TimeoutError));
    assert!(is_retriable_error(&ProxyError::UpstreamError(500, "x".to_owned())));
    assert!(is_retriable_error(&ProxyError::UpstreamError(429, "x".to_owned())));
    assert!(!is_retriable_error(&ProxyError::UpstreamError(404, "x".to_owned())));
    assert!(!is_retriable_error(&ProxyError::InvalidRequest("x".to_owned())));
    assert!(!is_retriable_error(&ProxyError::ConversionError("x".to_owned())));
}

#[test]
fn error_status_mapping() {
    assert_eq!(ProxyError::InvalidRequest("m".to_owned()).status_code(), 400);
    assert_eq!(ProxyError::UpstreamError(503, "m".to_owned()).status_code(), 503);
    assert_eq!(ProxyError::NetworkError("m".to_owned()).status_code(), 502);
    assert_eq!(ProxyError::TimeoutError.status_code(), 504);
    assert_eq!(ProxyError::ConfigurationError("m".to_owned()).status_code(), 500);
    assert_eq!(ProxyError::ConversionError("m".to_owned()).status_code(), 500);
    assert_eq!(ProxyError::TimeoutError.kind_label(), "timeout_error");
    assert_eq!(ProxyError::NetworkError("m".to_owned()).kind_label(), "connection_error");
}

#[test]
fn error_messages_match_wire_text() {
    assert_eq!(
        ProxyError::UpstreamError(502, "boom".to_owned()).message(),
        "Upstream error (502): boom"
    );
    assert_eq!(ProxyError::InvalidRequest("x".to_owned()).message(), "Invalid request: x");
    assert_eq!(ProxyError::TimeoutError.message(), "Request timeout");
    assert_eq!(ProxyError::ConversionError("y".to_owned()).message(), "Conversion error: y");
}
