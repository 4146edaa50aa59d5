use amp_proxy::sse::{parse_sse_line, split_body_lines, SseFramer};

fn run_chunks(chunks: &[&[u8]]) -> Vec<String> {
    let mut f = SseFramer::new();
    let mut events = Vec::new();
    for c in chunks {
        events.extend(f.push_chunk(c));
    }
    events.extend(f.finish());
    events
}

#[test]
fn whole_lines_become_events() {
    let events = run_chunks(&[b"data: a\ndata: b\n\n"]);
    assert_eq!(events, vec!["a".to_owned(), "b".to_owned()]);
}

#[test]
fn trailing_line_flushes_at_finish() {
    let events = run_chunks(&[b"data: partial"]);
    assert_eq!(events, vec!["partial".to_owned()]);
}

#[test]
fn chunk_boundaries_do_not_change_events() {
    let input: &[u8] = b"data: hello\n\ndata: {\"x\": 1}\r\nplain line\ndata: [DONE]\ntail";
    let reference = run_chunks(&[input]);
    assert_eq!(
        reference,
        vec![
            "hello".to_owned(),
            "{\"x\": 1}".to_owned(),
            "plain line".to_owned(),
            "[DONE]".to_owned(),
            "tail".to_owned(),
        ]
    );
    for split in 0..=input.len() {
        let (a, b) = input.split_at(split);
        assert_eq!(run_chunks(&[a, b]), reference, "split at {split}");
    }
    for split1 in 0..=input.len() {
        let (a, rest) = input.split_at(split1);
        let mid = rest.len() / 2;
        let (b, c) = rest.split_at(mid);
        assert_eq!(run_chunks(&[a, b, c]), reference);
    }
}

#[test]
fn done_sentinel_passes_verbatim() {
    assert_eq!(parse_sse_line("data: [DONE]"), Some("[DONE]".to_owned()));
    assert_eq!(parse_sse_line("data:[DONE]"), Some("[DONE]".to_owned()));
    assert_eq!(parse_sse_line("  data: [DONE]  "), Some("[DONE]".to_owned()));
    assert_eq!(parse_sse_line("\tdata:[DONE]\r"), Some("[DONE]".to_owned()));
}

#[test]
fn line_parsing_rules() {
    assert_eq!(parse_sse_line("data: payload"), Some("payload".to_owned()));
    assert_eq!(parse_sse_line("data:payload"), Some("payload".to_owned()));
    assert_eq!(parse_sse_line("data:  spaced"), Some(" spaced".to_owned()));
    assert_eq!(parse_sse_line("no prefix"), Some("no prefix".to_owned()));
    assert_eq!(parse_sse_line(""), None);
    assert_eq!(parse_sse_line("   "), None);
    assert_eq!(parse_sse_line("data: "), Some(String::new()));
}

#[test]
fn empty_lines_are_discarded() {
    let events = run_chunks(&[b"\n\n\ndata: x\n\n"]);
    assert_eq!(events, vec!["x".to_owned()]);
}

#[test]
fn invalid_utf8_is_replaced_not_fatal() {
    let events = run_chunks(&[b"data: a\xff b\n"]);
    assert_eq!(events, vec!["a\u{fffd} b".to_owned()]);
}

#[test]
fn body_line_splitting() {
    let lines = split_body_lines(b"a\r\nb\nc");
    assert_eq!(lines, vec![b"a".to_vec(), b"b".to_vec(), b"c".to_vec()]);
    let lines = split_body_lines(b"x\n");
    assert_eq!(lines, vec![b"x".to_vec()]);
    let lines = split_body_lines(b"");
    assert!(lines.is_empty());
}
