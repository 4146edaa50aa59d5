use amp_proxy::config::{EndpointConfig, ResponseType};
use amp_proxy::convert_gemini::{
    content_value_to_text, convert_gemini_stream_body, convert_responses_to_gemini_request,
    handle_google_responses_conversion,
};
use amp_proxy::json::{json_parse, json_to_string, JsonValue};

fn parse(text: &str) -> JsonValue {
    json_parse(text.as_bytes()).expect("test input must parse")
}

fn google_route() -> EndpointConfig {
    EndpointConfig {
        path: "/api/provider/google/v1beta/responses".to_owned(),
        target_url: "https://api-key.info/v1beta/models/".to_owned(),
        method: "POST".to_owned(),
        response_type: ResponseType::Sse,
        custom_headers: Vec::new(),
        forward_request_headers: vec!["authorization".to_owned()],
        forward_response_headers: vec!["content-type".to_owned()],
        enabled: true,
        timeout: None,
        retry: None,
    }
}

#[test]
fn system_and_user_items_split() {
    let req = parse(
        "{\"model\":\"gemini-pro\",\"input\":[\
         {\"role\":\"system\",\"content\":\"be terse\"},\
         {\"role\":\"user\",\"content\":\"hi\"}]}",
    );
    let out = convert_responses_to_gemini_request(&req);
    assert_eq!(
        json_to_string(&out),
        "{\"contents\":[{\"role\":\"user\",\"parts\":[{\"text\":\"hi\"}]}],\
         \"systemInstruction\":{\"parts\":[{\"text\":\"be terse\"}]}}"
    );
}

#[test]
fn assistant_items_become_model_role() {
    let req = parse("{\"input\":[{\"role\":\"assistant\",\"content\":\"sure\"}]}");
    let out = convert_responses_to_gemini_request(&req);
    assert_eq!(
        json_to_string(&out),
        "{\"contents\":[{\"role\":\"model\",\"parts\":[{\"text\":\"sure\"}]}]}"
    );
}

#[test]
fn sampling_fields_move_into_generation_config() {
    let req = parse(
        "{\"input\":[],\"temperature\":0.5,\"max_completion_tokens\":128,\
         \"top_p\":0.9,\"top_k\":40}",
    );
    let out = convert_responses_to_gemini_request(&req);
    assert_eq!(
        json_to_string(&out),
        "{\"contents\":[],\"generationConfig\":{\"temperature\":0.5,\
         \"maxOutputTokens\":128,\"topP\":0.9,\"topK\":40}}"
    );
}

#[test]
fn system_texts_join_with_blank_line() {
    let req = parse(
        "{\"input\":[{\"role\":\"system\",\"content\":\"a\"},\
         {\"role\":\"SYSTEM\",\"content\":\"b\"}]}",
    );
    let out = convert_responses_to_gemini_request(&req);
    assert_eq!(
        json_to_string(&out),
        "{\"contents\":[],\"systemInstruction\":{\"parts\":[{\"text\":\"a\\n\\nb\"}]}}"
    );
}

#[test]
fn content_flattening_rules() {
    assert_eq!(content_value_to_text(&parse("\"plain\"")), "plain");
    assert_eq!(
        content_value_to_text(&parse("[{\"text\":\"a\"},{\"content\":\"b\"},{\"x\":1}]")),
        "ab"
    );
    assert_eq!(content_value_to_text(&parse("[{\"x\":1}]")), "[{\"x\":1}]");
    assert_eq!(content_value_to_text(&parse("{\"k\":true}")), "{\"k\":true}");
}

#[test]
fn google_request_rewrites_target_per_stream_flag() {
    let body = b"{\"model\":\"gemini-pro\",\"stream\":true,\"input\":[]}";
    let r = handle_google_responses_conversion(google_route(), body);
    assert!(r.converted);
    assert!(r.streaming);
    assert_eq!(
        r.config.target_url,
        "https://api-key.info/v1beta/models/gemini-pro:streamGenerateContent"
    );
    assert_eq!(
        r.config.path,
        "/api/provider/google/v1beta/models/gemini-pro:streamGenerateContent"
    );

    let body = b"{\"model\":\"gemini-pro\",\"input\":[]}";
    let r = handle_google_responses_conversion(google_route(), body);
    assert!(r.converted);
    assert!(!r.streaming);
    assert_eq!(
        r.config.target_url,
        "https://api-key.info/v1beta/models/gemini-pro:generateContent"
    );
}

#[test]
fn missing_model_passes_through() {
    let body = b"{\"input\":[]}";
    let r = handle_google_responses_conversion(google_route(), body);
    assert!(!r.converted);
    assert_eq!(r.body, body.to_vec());
}

#[test]
fn finished_chunk_yields_exactly_one_completed_event() {
    let body = b"data: {\"candidates\":[{\"content\":{\"parts\":[{\"text\":\"hi\"}]},\
                 \"finishReason\":\"STOP\"}],\"usageMetadata\":{\"totalTokenCount\":5}}\n";
    let out = String::from_utf8(convert_gemini_stream_body(body)).unwrap();
    assert_eq!(out.matches("response.completed").count(), 1);
    assert!(out.contains("\"usage\":{\"totalTokenCount\":5}"));
    assert_eq!(out.matches("response.created").count(), 1);
    assert!(out.contains("{\"type\":\"response.output_text.delta\",\"delta\":\"hi\"}"));
}

#[test]
fn created_event_emitted_once_per_stream() {
    let body = b"data: {\"candidates\":[{\"content\":{\"parts\":[{\"text\":\"a\"}]}}]}\n\
                 data: {\"candidates\":[{\"content\":{\"parts\":[{\"text\":\"b\"}]}}]}\n";
    let out = String::from_utf8(convert_gemini_stream_body(body)).unwrap();
    assert_eq!(out.matches("response.created").count(), 1);
    assert_eq!(out.matches("response.output_text.delta").count(), 2);
}

#[test]
fn part_texts_concatenate_into_one_delta() {
    let body =
        b"data: {\"candidates\":[{\"content\":{\"parts\":[{\"text\":\"a\"},{\"text\":\"b\"}]}}]}\n";
    let out = String::from_utf8(convert_gemini_stream_body(body)).unwrap();
    assert!(out.contains("{\"type\":\"response.output_text.delta\",\"delta\":\"ab\"}"));
}

#[test]
fn done_sentinel_survives_gemini_stream() {
    let body = b"data: [DONE]\n";
    let out = String::from_utf8(convert_gemini_stream_body(body)).unwrap();
    assert_eq!(out, "data: [DONE]");
}
