use amp_proxy::config::{EndpointConfig, ResponseType};
use amp_proxy::convert_chat::{
    convert_chat_chunk_to_responses_chunk, convert_chat_completions_to_responses_format,
    convert_chat_stream_body, convert_responses_to_chat_completions, handle_o3_model_conversion,
};
use amp_proxy::json::{json_parse, json_to_string, JsonValue};

fn parse(text: &str) -> JsonValue {
    json_parse(text.as_bytes()).expect("test input must parse")
}

fn responses_route() -> EndpointConfig {
    EndpointConfig {
        path: "/api/provider/openai/v1/responses".to_owned(),
        target_url: "https://api-key.info/v1/responses".to_owned(),
        method: "POST".to_owned(),
        response_type: ResponseType::Stream,
        custom_headers: Vec::new(),
        forward_request_headers: vec!["authorization".to_owned()],
        forward_response_headers: vec!["content-type".to_owned()],
        enabled: true,
        timeout: None,
        retry: None,
    }
}

#[test]
fn responses_request_flattens_to_messages() {
    let req = parse(
        "{\"model\":\"o3-mini\",\"input\":[{\"role\":\"user\",\"content\":\"hi\"}],\
         \"stream\":false,\"temperature\":0.2}",
    );
    let out = convert_responses_to_chat_completions(&req);
    assert!(out.get("input").is_none());
    assert_eq!(
        json_to_string(&out),
        "{\"model\":\"o3-mini\",\"stream\":false,\"temperature\":0.2,\
         \"messages\":[{\"role\":\"user\",\"content\":\"hi\"}]}"
    );
}

#[test]
fn max_completion_tokens_becomes_max_tokens() {
    let req = parse("{\"model\":\"o3\",\"max_completion_tokens\":64}");
    let out = convert_responses_to_chat_completions(&req);
    assert_eq!(json_to_string(&out), "{\"model\":\"o3\",\"max_tokens\":64}");
}

#[test]
fn items_without_role_or_content_are_skipped() {
    let req = parse(
        "{\"input\":[{\"role\":\"user\"},{\"content\":\"x\"},{\"role\":\"user\",\"content\":\"ok\"}]}",
    );
    let out = convert_responses_to_chat_completions(&req);
    assert_eq!(
        json_to_string(&out),
        "{\"messages\":[{\"role\":\"user\",\"content\":\"ok\"}]}"
    );
}

#[test]
fn delta_chunk_converts_to_output_text_delta() {
    let chunk = parse(
        "{\"id\":\"x\",\"created\":1,\"model\":\"o3\",\
         \"choices\":[{\"delta\":{\"content\":\"ab\"}}]}",
    );
    let out = convert_chat_chunk_to_responses_chunk(&chunk).unwrap();
    assert_eq!(
        json_to_string(&out),
        "{\"type\":\"response.output_text.delta\",\"delta\":\"ab\"}"
    );
}

#[test]
fn finish_reason_chunk_converts_to_completed() {
    let chunk = parse(
        "{\"id\":\"x\",\"created\":7,\"model\":\"o3\",\"usage\":{\"total_tokens\":3},\
         \"choices\":[{\"delta\":{},\"finish_reason\":\"stop\"}]}",
    );
    let out = convert_chat_chunk_to_responses_chunk(&chunk).unwrap();
    assert_eq!(
        json_to_string(&out),
        "{\"type\":\"response.completed\",\"response\":{\"id\":\"x\",\"object\":\"response\",\
         \"created\":7,\"model\":\"o3\",\"usage\":{\"total_tokens\":3}}}"
    );
}

#[test]
fn first_chunk_converts_to_created() {
    let chunk = parse("{\"id\":\"x\",\"choices\":[]}");
    let out = convert_chat_chunk_to_responses_chunk(&chunk).unwrap();
    assert_eq!(
        json_to_string(&out),
        "{\"type\":\"response.created\",\"response\":{\"id\":\"x\",\"object\":\"response\",\
         \"created\":0,\"model\":\"o3\"}}"
    );
}

#[test]
fn unknown_chunk_is_dropped() {
    let chunk = parse("{\"foo\":1}");
    assert!(convert_chat_chunk_to_responses_chunk(&chunk).is_none());
}

#[test]
fn o3_request_rewrites_route_and_body() {
    let body = b"{\"model\":\"o3-mini\",\"stream\":true,\"input\":[]}";
    let r = handle_o3_model_conversion(responses_route(), body);
    assert!(r.converted);
    assert!(r.streaming);
    assert_eq!(r.config.path, "/api/provider/openai/v1/chat/completions");
    assert_eq!(r.config.target_url, "https://api-key.info/v1/chat/completions");
    assert_eq!(
        String::from_utf8(r.body).unwrap(),
        "{\"model\":\"o3-mini\",\"stream\":true,\"messages\":[]}"
    );
}

#[test]
fn non_o3_model_passes_through() {
    let body = b"{\"model\":\"gpt-4o\",\"input\":[]}";
    let r = handle_o3_model_conversion(responses_route(), body);
    assert!(!r.converted);
    assert_eq!(r.config.path, "/api/provider/openai/v1/responses");
    assert_eq!(r.body, body.to_vec());
}

#[test]
fn non_json_body_passes_through() {
    let body = b"plainly not json";
    let r = handle_o3_model_conversion(responses_route(), body);
    assert!(!r.converted);
    assert_eq!(r.body, body.to_vec());
}

#[test]
fn other_paths_pass_through() {
    let mut route = responses_route();
    route.path = "/api/provider/openai/v1/chat/completions".to_owned();
    let body = b"{\"model\":\"o3-mini\"}";
    let r = handle_o3_model_conversion(route, body);
    assert!(!r.converted);
}

#[test]
fn streaming_body_reframed_line_by_line() {
    let body = b"data: {\"id\":\"x\",\"choices\":[{\"delta\":{\"content\":\"hi\"}}]}\n\
                 \n\
                 data: [DONE]\n";
    let out = convert_chat_stream_body(body);
    assert_eq!(
        String::from_utf8(out).unwrap(),
        "data: {\"type\":\"response.output_text.delta\",\"delta\":\"hi\"}\n\n\n\ndata: [DONE]"
    );
}

#[test]
fn non_streaming_response_reserialized() {
    let r = convert_chat_completions_to_responses_format(b"{\"id\": \"z\"}", false).unwrap();
    assert_eq!(r.status, 200);
    assert_eq!(String::from_utf8(r.body).unwrap(), "{\"id\":\"z\"}");
    assert_eq!(r.headers, vec![("content-type".to_owned(), "application/json".to_owned())]);
}

#[test]
fn non_streaming_garbage_is_conversion_error() {
    assert!(convert_chat_completions_to_responses_format(b"not json", false).is_err());
}
