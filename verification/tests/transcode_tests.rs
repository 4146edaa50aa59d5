use amp_proxy::config::{EndpointConfig, ResponseType};
use amp_proxy::dispatch::{check_upstream_status, plan_request, ConversionKind};
use amp_proxy::headers::{build_outbound_headers, find_header, set_header};
use amp_proxy::json::{bytes_to_string_lossy, json_parse, json_to_string};
use amp_proxy::transcode::{
    select_sse_headers, select_stream_headers, stream_is_passthrough, transcode_html,
    transcode_json,
};
use amp_proxy::{get_amp_api_key, ServiceCredential};

fn route_with(fwd_req: Vec<&str>, fwd_resp: Vec<&str>) -> EndpointConfig {
    EndpointConfig {
        path: "/api/provider/openai/v1/chat/completions".to_owned(),
        target_url: "https://api-key.info/v1/chat/completions".to_owned(),
        method: "POST".to_owned(),
        response_type: ResponseType::Json,
        custom_headers: Vec::new(),
        forward_request_headers: fwd_req.into_iter().map(str::to_owned).collect(),
        forward_response_headers: fwd_resp.into_iter().map(str::to_owned).collect(),
        enabled: true,
        timeout: None,
        retry: None,
    }
}

fn hs(pairs: &[(&str, &str)]) -> Vec<(String, String)> {
    pairs.iter().map(|(k, v)| (k.to_string(), v.to_string())).collect()
}

#[test]
fn non_json_body_falls_back_to_text_plain_with_status() {
    let route = route_with(vec![], vec![]);
    let upstream = hs(&[]);
    let r = transcode_json(404, &upstream, b"upstream text error", &route);
    assert_eq!(r.status, 404);
    assert_eq!(
        r.headers,
        hs(&[("content-type", "text/plain; charset=utf-8")])
    );
    assert_eq!(r.body, b"upstream text error".to_vec());
}

#[test]
fn json_body_is_reemitted_as_json() {
    let route = route_with(vec![], vec!["cache-control"]);
    let upstream = hs(&[("cache-control", "no-store"), ("x-other", "y")]);
    let r = transcode_json(200, &upstream, b"{\"a\": 1}", &route);
    assert_eq!(r.status, 200);
    assert_eq!(
        r.headers,
        hs(&[("content-type", "application/json"), ("cache-control", "no-store")])
    );
    assert_eq!(r.body, b"{\"a\":1}".to_vec());
}

#[test]
fn html_mode_forces_text_html_and_forward_list_wins_last() {
    let route = route_with(vec![], vec!["content-type"]);
    let upstream = hs(&[("content-type", "application/xhtml")]);
    let r = transcode_html(200, &upstream, b"<p>hi</p>", &route);
    assert_eq!(r.headers, hs(&[("content-type", "application/xhtml")]));
    assert_eq!(r.body, b"<p>hi</p>".to_vec());

    let upstream = hs(&[]);
    let r = transcode_html(201, &upstream, b"<p>hi</p>", &route);
    assert_eq!(r.status, 201);
    assert_eq!(r.headers, hs(&[("content-type", "text/html")]));
}

#[test]
fn stream_sniffing_on_content_type() {
    let es = "text/event-stream; charset=utf-8".to_owned();
    let app = "application/stream+json".to_owned();
    let plain = "application/json".to_owned();
    assert!(stream_is_passthrough(Some(&es)));
    assert!(stream_is_passthrough(Some(&app)));
    assert!(!stream_is_passthrough(Some(&plain)));
    assert!(!stream_is_passthrough(None));
}

#[test]
fn hop_specific_headers_never_leak_on_stream_routes() {
    let route = route_with(vec![], vec!["content-type", "connection", "transfer-encoding"]);
    let upstream = hs(&[
        ("content-type", "text/event-stream"),
        ("connection", "keep-alive"),
        ("transfer-encoding", "chunked"),
    ]);
    let r = select_stream_headers(&route, &upstream);
    assert_eq!(r, hs(&[("content-type", "text/event-stream")]));
    let r = select_sse_headers(&route, &upstream);
    assert_eq!(
        r,
        hs(&[
            ("content-type", "text/event-stream"),
            ("connection", "keep-alive"),
            ("transfer-encoding", "chunked"),
        ])
    );
}

#[test]
fn absent_inbound_header_is_omitted_not_emptied() {
    let route = route_with(vec!["authorization", "content-type"], vec![]);
    let inbound = hs(&[("content-type", "application/json")]);
    let cred = ServiceCredential { key: "k".to_owned() };
    let out = build_outbound_headers(&route, &inbound, &cred);
    assert_eq!(out, hs(&[("content-type", "application/json")]));
    assert!(find_header(&out, "authorization").is_none());
}

#[test]
fn custom_headers_overwrite_forwarded_ones() {
    let mut route = route_with(vec!["x-tag"], vec![]);
    route.custom_headers = hs(&[("X-Tag", "forced")]);
    let inbound = hs(&[("x-tag", "original")]);
    let cred = ServiceCredential { key: "k".to_owned() };
    let out = build_outbound_headers(&route, &inbound, &cred);
    assert_eq!(out, hs(&[("X-Tag", "forced")]));
}

#[test]
fn relay_route_pins_bearer_credential() {
    let mut route = route_with(vec!["authorization"], vec![]);
    route.path = "/api/tab/llm-proxy".to_owned();
    let inbound = hs(&[("authorization", "Bearer user-token")]);
    let cred = ServiceCredential { key: "service-key".to_owned() };
    assert_eq!(get_amp_api_key(&cred).as_str(), "service-key");
    let out = build_outbound_headers(&route, &inbound, &cred);
    assert_eq!(out, hs(&[("authorization", "Bearer service-key")]));
}

#[test]
fn header_lookup_is_case_insensitive() {
    let headers = hs(&[("Content-Type", "x")]);
    assert_eq!(find_header(&headers, "content-type"), Some(&"x".to_owned()));
    let mut headers = headers;
    set_header(&mut headers, "CONTENT-TYPE".to_owned(), "y".to_owned());
    assert_eq!(headers, hs(&[("CONTENT-TYPE", "y")]));
}

#[test]
fn json_round_trip_through_wrappers() {
    let v = json_parse(b"{\"a\":[1,2,{\"b\":null}],\"c\":\"d\"}").unwrap();
    assert_eq!(json_to_string(&v), "{\"a\":[1,2,{\"b\":null}],\"c\":\"d\"}");
    assert!(json_parse(b"{not json").is_none());
    assert_eq!(bytes_to_string_lossy(b"a\xffb"), "a\u{fffd}b");
}

#[test]
fn upstream_status_gate() {
    assert!(check_upstream_status(200).is_ok());
    assert!(check_upstream_status(299).is_ok());
    let e = check_upstream_status(404).unwrap_err();
    assert_eq!(e.status_code(), 502);
    assert!(check_upstream_status(500).is_err());
}

#[test]
fn plan_request_selects_at_most_one_converter() {
    let mut route = route_with(vec![], vec![]);
    route.path = "/api/provider/openai/v1/responses".to_owned();
    route.target_url = "https://api-key.info/v1/responses".to_owned();
    let plan = plan_request(route, b"{\"model\":\"o3-mini\",\"input\":[]}");
    assert!(matches!(plan.kind, ConversionKind::ChatCompletions));

    let mut route = route_with(vec![], vec![]);
    route.path = "/api/provider/google/v1beta/responses".to_owned();
    route.target_url = "https://api-key.info/v1beta/models".to_owned();
    let plan = plan_request(route, b"{\"model\":\"gemini-pro\",\"stream\":true}");
    assert!(matches!(plan.kind, ConversionKind::Gemini));
    assert!(plan.streaming);

    let route = route_with(vec![], vec![]);
    let plan = plan_request(route, b"{\"model\":\"gpt\"}");
    assert!(matches!(plan.kind, ConversionKind::NoConversion));
}
