//! The Responses ⇄ Chat-Completions converter.
//!
//! It fires only for a route serving a `/v1/responses` path whose request
//! body names a model of the restricted `o3` family. On the way out the
//! Responses envelope becomes a Chat-Completions request and the route is
//! rewritten to the `/v1/chat/completions` target. On the way back a
//! non-streaming body passes through re-serialized, while a streaming body
//! is re-framed line by line into Responses-style events.

use vstd::prelude::*;

use crate::RequestConversion;
use crate::config::EndpointConfig;
use crate::error::ProxyError;
use crate::json::{
    JsonModel, JsonValue, json_clone, json_model_pairs, json_model_seq, json_parse, json_parse_spec,
    json_text_spec, json_to_string, lemma_json_model_pairs, lemma_json_model_seq, obj_get,
    opt_member, or_default,
};
use crate::sse::{body_lines, join_lines, split_body_lines};
use crate::text::{
    bytes_eq, bytes_starts_with, bytes_starts_with_spec, bytes_suffix, contains_sub_spec,
    replace_all_spec, starts_with_spec, str_contains, str_replace, str_starts_with,
};
use crate::transcode::TranscodedResponse;
use vstd::string::StringSliceAdditionalSpecFns;
use vstd::utf8::encode_utf8;

verus! {

/// The messages a Responses `input` array flattens to: every item with a
/// string `role` and a `content` member becomes `{role, content}`.
pub open spec fn cc_messages_spec(items: Seq<JsonModel>) -> Seq<JsonModel>
    decreases items.len(),
{
    if items.len() == 0 {
        Seq::empty()
    } else {
        cc_message_of(items[0]) + cc_messages_spec(items.skip(1))
    }
}

/// The zero or one message one input item yields.
pub open spec fn cc_message_of(item: JsonModel) -> Seq<JsonModel> {
    match obj_get(item, "role"@) {
        Some(JsonModel::Str(role)) => match obj_get(item, "content"@) {
            Some(c) => seq![
                JsonModel::Obj(
                    seq![("role"@, JsonModel::Str(role)), ("content"@, c)],
                ),
            ],
            None => Seq::empty(),
        },
        _ => Seq::empty(),
    }
}

/// The Chat-Completions request a Responses request converts to: `model`,
/// `stream` and `temperature` copied, `max_completion_tokens` renamed to
/// `max_tokens`, and the `input` array flattened into `messages`.
pub open spec fn cc_request_spec(req: JsonModel) -> JsonModel {
    let base = opt_member("model"@, obj_get(req, "model"@)) + opt_member(
        "stream"@,
        obj_get(req, "stream"@),
    ) + opt_member("max_tokens"@, obj_get(req, "max_completion_tokens"@)) + opt_member(
        "temperature"@,
        obj_get(req, "temperature"@),
    );
    let msgs = match obj_get(req, "input"@) {
        Some(JsonModel::Arr(items)) => seq![("messages"@, JsonModel::Arr(cc_messages_spec(items)))],
        _ => Seq::empty(),
    };
    JsonModel::Obj(base + msgs)
}

/// Convert a Responses request body to the Chat-Completions shape.
#[verifier::loop_isolation(false)]
pub fn convert_responses_to_chat_completions(req: &JsonValue) -> (r: JsonValue)
    ensures
        r@ == cc_request_spec(req@),
{
    broadcast use {lemma_json_model_pairs, lemma_json_model_seq};

    let mut out: Vec<(String, JsonValue)> = Vec::new();
    match req.get("model") {
        Some(v) => {
            out.push(("model".to_owned(), json_clone(v)));
        },
        None => {},
    }
    proof {
        assert(json_model_pairs(out@) =~= opt_member("model"@, obj_get(req@, "model"@)));
    }
    let ghost sofar = json_model_pairs(out@);
    match req.get("stream") {
        Some(v) => {
            out.push(("stream".to_owned(), json_clone(v)));
        },
        None => {},
    }
    proof {
        assert(json_model_pairs(out@) =~= sofar + opt_member("stream"@, obj_get(req@, "stream"@)));
    }
    let ghost sofar = json_model_pairs(out@);
    match req.get("max_completion_tokens") {
        Some(v) => {
            out.push(("max_tokens".to_owned(), json_clone(v)));
        },
        None => {},
    }
    proof {
        assert(json_model_pairs(out@) =~= sofar + opt_member(
            "max_tokens"@,
            obj_get(req@, "max_completion_tokens"@),
        ));
    }
    let ghost sofar = json_model_pairs(out@);
    match req.get("temperature") {
        Some(v) => {
            out.push(("temperature".to_owned(), json_clone(v)));
        },
        None => {},
    }
    proof {
        assert(json_model_pairs(out@) =~= sofar + opt_member(
            "temperature"@,
            obj_get(req@, "temperature"@),
        ));
    }
    let ghost base = json_model_pairs(out@);
    match req.get("input") {
        Some(inp) => match inp.as_arr() {
            Some(items) => {
                let ghost itemsm = inp@->Arr_0;
                let mut msgs: Vec<JsonValue> = Vec::new();
                let mut i: usize = 0;
                proof {
                    assert(itemsm.skip(0) =~= itemsm);
                    assert(json_model_seq(msgs@) + cc_messages_spec(itemsm.skip(0))
                        =~= cc_messages_spec(itemsm));
                }
                while i < items.len()
                    invariant
                        i <= items@.len(),
                        itemsm.len() == items@.len(),
                        forall|j: int| 0 <= j < items@.len() ==> itemsm[j] == (#[trigger] items@[j])@,
                        json_model_seq(msgs@) + cc_messages_spec(itemsm.skip(i as int))
                            == cc_messages_spec(itemsm),
                    decreases items@.len() - i,
                {
                    proof {
                        assert(itemsm.skip(i as int)[0] == itemsm[i as int]);
                        assert(itemsm.skip(i as int).skip(1) =~= itemsm.skip(i + 1));
                    }
                    let ghost msgs0 = json_model_seq(msgs@);
                    let item = &items[i];
                    match item.get("role") {
                        Some(role_v) => match role_v.as_str() {
                            Some(role) => match item.get("content") {
                                Some(content) => {
                                    let mpairs: Vec<(String, JsonValue)> = vec![
                                        ("role".to_owned(), JsonValue::Str(role.clone())),
                                        ("content".to_owned(), json_clone(content)),
                                    ];
                                    let ghost mpm = json_model_pairs(mpairs@);
                                    proof {
                                        assert(mpm =~= seq![
                                            ("role"@, JsonModel::Str(role@)),
                                            ("content"@, content@),
                                        ]);
                                    }
                                    let msg = JsonValue::Obj(mpairs);
                                    proof {
                                        assert(msg@ == JsonModel::Obj(mpm));
                                        assert(seq![msg@] =~= cc_message_of(itemsm[i as int]));
                                    }
                                    msgs.push(msg);
                                    proof {
                                        assert(json_model_seq(msgs@) =~= msgs0 + cc_message_of(
                                            itemsm[i as int],
                                        ));
                                    }
                                },
                                None => {
                                    proof {
                                        assert(cc_message_of(itemsm[i as int])
                                            =~= Seq::<JsonModel>::empty());
                                    }
                                },
                            },
                            None => {
                                proof {
                                    assert(cc_message_of(itemsm[i as int])
                                        =~= Seq::<JsonModel>::empty());
                                }
                            },
                        },
                        None => {
                            proof {
                                assert(cc_message_of(itemsm[i as int])
                                    =~= Seq::<JsonModel>::empty());
                            }
                        },
                    }
                    i += 1;
                }
                proof {
                    assert(cc_messages_spec(itemsm.skip(itemsm.len() as int))
                        =~= Seq::<JsonModel>::empty());
                    assert(json_model_seq(msgs@) + Seq::<JsonModel>::empty()
                        =~= json_model_seq(msgs@));
                }
                out.push(("messages".to_owned(), JsonValue::Arr(msgs)));
            },
            None => {},
        },
        None => {},
    }
    let ghost outm = json_model_pairs(out@);
    proof {
        assert(outm =~= cc_request_spec(req@)->Obj_0);
    }
    let r = JsonValue::Obj(out);
    proof {
        assert(r@ == JsonModel::Obj(outm));
    }
    r
}

/// The converted request never carries the `input` member: its items have
/// been flattened into `messages` and the member itself is dropped.
pub proof fn lemma_converted_request_drops_input(req: JsonModel)
    ensures
        obj_get(cc_request_spec(req), "input"@) is None,
{
    reveal_strlit("model");
    reveal_strlit("stream");
    reveal_strlit("max_tokens");
    reveal_strlit("temperature");
    reveal_strlit("messages");
    reveal_strlit("input");
    let ps = cc_request_spec(req)->Obj_0;
    assert("model"@.len() == 5 && "stream"@.len() == 6 && "max_tokens"@.len() == 10
        && "temperature"@.len() == 11 && "messages"@.len() == 8 && "input"@.len() == 5);
    assert("model"@[0] == 'm' && "input"@[0] == 'i');
    assert forall|k: int| 0 <= k < ps.len() implies (#[trigger] ps[k]).0 != "input"@ by {
        assert(ps[k].0 == "model"@ || ps[k].0 == "stream"@ || ps[k].0 == "max_tokens"@
            || ps[k].0 == "temperature"@ || ps[k].0 == "messages"@);
    }
    crate::json::lemma_member_idx_none(ps, "input"@);
}

/// Whether the o3 conversion fires: a `/v1/responses` path and a parsed
/// body whose `model` is a string starting with `o3`.
pub open spec fn o3_applies(path: Seq<char>, parsed: Option<JsonModel>) -> bool {
    &&& contains_sub_spec(path, "/v1/responses"@)
    &&& match parsed {
        Some(req) => match obj_get(req, "model"@) {
            Some(JsonModel::Str(m)) => starts_with_spec(m, "o3"@),
            _ => false,
        },
        None => false,
    }
}

/// Whether a parsed request declared streaming.
pub open spec fn declared_streaming(req: JsonModel) -> bool {
    obj_get(req, "stream"@) == Some(JsonModel::Bool(true))
}

/// All route fields but path and target URL are the same.
pub open spec fn same_route_policy(a: EndpointConfig, b: EndpointConfig) -> bool {
    &&& a.method == b.method
    &&& a.response_type == b.response_type
    &&& a.custom_headers == b.custom_headers
    &&& a.forward_request_headers == b.forward_request_headers
    &&& a.forward_response_headers == b.forward_response_headers
    &&& a.enabled == b.enabled
    &&& a.timeout == b.timeout
    &&& a.retry == b.retry
}

/// Recognize a Responses request for an o3 model and convert it to Chat
/// Completions, rewriting the route's path and target; everything else
/// passes through untouched.
pub fn handle_o3_model_conversion(config: EndpointConfig, body: &[u8]) -> (r: RequestConversion)
    ensures
        same_route_policy(r.config, config),
        if o3_applies(config.path@, json_parse_spec(body@)) {
            &&& r.converted
            &&& r.config.path@ == replace_all_spec(
                config.path@,
                "/v1/responses"@,
                "/v1/chat/completions"@,
            )
            &&& r.config.target_url@ == replace_all_spec(
                config.target_url@,
                "/v1/responses"@,
                "/v1/chat/completions"@,
            )
            &&& r.body@ == encode_utf8(
                json_text_spec(cc_request_spec(json_parse_spec(body@)->0)),
            )
            &&& r.streaming == declared_streaming(json_parse_spec(body@)->0)
        } else {
            &&& !r.converted
            &&& r.config == config
            &&& r.body@ == body@
            &&& !r.streaming
        },
{
    if !str_contains(config.path.as_str(), "/v1/responses") {
        return passthrough(config, body);
    }
    let parsed = json_parse(body);
    match parsed {
        None => passthrough(config, body),
        Some(req) => {
            let model_ok = match req.get("model") {
                Some(m) => match m.as_str() {
                    Some(s) => str_starts_with(s.as_str(), "o3"),
                    None => false,
                },
                None => false,
            };
            if !model_ok {
                return passthrough(config, body);
            }
            let chat = convert_responses_to_chat_completions(&req);
            let text = json_to_string(&chat);
            let out_body = text.as_str().as_bytes_vec();
            let streaming = match req.get("stream") {
                Some(v) => match v.as_bool() {
                    Some(b) => b,
                    None => false,
                },
                None => false,
            };
            let mut config = config;
            proof {
                reveal_strlit("/v1/responses");
            }
            config.target_url = str_replace(
                config.target_url.as_str(),
                "/v1/responses",
                "/v1/chat/completions",
            );
            config.path = str_replace(config.path.as_str(), "/v1/responses", "/v1/chat/completions");
            RequestConversion { config, body: out_body, converted: true, streaming }
        },
    }
}

/// A plan that forwards the request exactly as it came.
fn passthrough(config: EndpointConfig, body: &[u8]) -> (r: RequestConversion)
    ensures
        r.config == config,
        r.body@ == body@,
        !r.converted,
        !r.streaming,
{
    let mut b: Vec<u8> = Vec::new();
    b.extend_from_slice(body);
    proof {
        assert(b@ =~= body@);
    }
    RequestConversion { config, body: b, converted: false, streaming: false }
}

/// The first element of a `choices` array, when there is one.
pub open spec fn first_choice(c: JsonModel) -> Option<JsonModel> {
    match obj_get(c, "choices"@) {
        Some(JsonModel::Arr(chs)) => if chs.len() > 0 {
            Some(chs[0])
        } else {
            None
        },
        _ => None,
    }
}

/// The `delta.content` of the first choice, when present.
pub open spec fn cc_delta_content(c: JsonModel) -> Option<JsonModel> {
    match first_choice(c) {
        Some(ch) => match obj_get(ch, "delta"@) {
            Some(d) => obj_get(d, "content"@),
            None => None,
        },
        None => None,
    }
}

/// Whether the first choice carries a non-null `finish_reason`.
pub open spec fn cc_finished(c: JsonModel) -> bool {
    match first_choice(c) {
        Some(ch) => match obj_get(ch, "finish_reason"@) {
            Some(fr) => !(fr is Null),
            None => false,
        },
        None => false,
    }
}

/// The `response` envelope summarizing a chunk: id, object, created,
/// model, with defaults where the chunk lacks a member.
pub open spec fn cc_response_core(c: JsonModel) -> Seq<(Seq<char>, JsonModel)> {
    seq![
        ("id"@, or_default(obj_get(c, "id"@), JsonModel::Str("response-unknown"@))),
        ("object"@, JsonModel::Str("response"@)),
        ("created"@, or_default(obj_get(c, "created"@), JsonModel::Num("0"@))),
        ("model"@, or_default(obj_get(c, "model"@), JsonModel::Str("o3"@))),
    ]
}

/// What one Chat-Completions streaming chunk converts to: a text delta, a
/// completion, a creation notice for the first chunk shape, or nothing.
pub open spec fn cc_chunk_spec(c: JsonModel) -> Option<JsonModel> {
    if cc_delta_content(c) is Some {
        Some(
            JsonModel::Obj(
                seq![
                    ("type"@, JsonModel::Str("response.output_text.delta"@)),
                    ("delta"@, cc_delta_content(c)->0),
                ],
            ),
        )
    } else if cc_finished(c) {
        Some(
            JsonModel::Obj(
                seq![
                    ("type"@, JsonModel::Str("response.completed"@)),
                    (
                        "response"@,
                        JsonModel::Obj(
                            cc_response_core(c).push(
                                ("usage"@, or_default(obj_get(c, "usage"@), JsonModel::Null)),
                            ),
                        ),
                    ),
                ],
            ),
        )
    } else if obj_get(c, "id"@) is Some && obj_get(c, "choices"@) is Some {
        Some(
            JsonModel::Obj(
                seq![
                    ("type"@, JsonModel::Str("response.created"@)),
                    ("response"@, JsonModel::Obj(cc_response_core(c))),
                ],
            ),
        )
    } else {
        None
    }
}

/// Build the `response` envelope members of a chunk.
fn cc_response_core_exec(c: &JsonValue) -> (r: Vec<(String, JsonValue)>)
    ensures
        json_model_pairs(r@) == cc_response_core(c@),
{
    broadcast use lemma_json_model_pairs;

    let id = match c.get("id") {
        Some(v) => json_clone(v),
        None => JsonValue::Str("response-unknown".to_owned()),
    };
    let created = match c.get("created") {
        Some(v) => json_clone(v),
        None => JsonValue::Num("0".to_owned()),
    };
    let model = match c.get("model") {
        Some(v) => json_clone(v),
        None => JsonValue::Str("o3".to_owned()),
    };
    let r: Vec<(String, JsonValue)> = vec![
        ("id".to_owned(), id),
        ("object".to_owned(), JsonValue::Str("response".to_owned())),
        ("created".to_owned(), created),
        ("model".to_owned(), model),
    ];
    proof {
        assert(json_model_pairs(r@) =~= cc_response_core(c@));
    }
    r
}

/// Convert one Chat-Completions streaming chunk to a Responses event.
pub fn convert_chat_chunk_to_responses_chunk(chunk: &JsonValue) -> (r: Option<JsonValue>)
    ensures
        match r {
            Some(v) => cc_chunk_spec(chunk@) == Some(v@),
            None => cc_chunk_spec(chunk@) is None,
        },
{
    broadcast use lemma_json_model_pairs;

    let delta = match chunk.get("choices") {
        Some(chs) => match chs.as_arr() {
            Some(arr) => if arr.len() > 0 {
                match arr[0].get("delta") {
                    Some(d) => match d.get("content") {
                        Some(content) => Some(json_clone(content)),
                        None => None,
                    },
                    None => None,
                }
            } else {
                None
            },
            None => None,
        },
        None => None,
    };
    match delta {
        Some(content) => {
            let ghost cm = content@;
            proof {
                assert(cc_delta_content(chunk@) == Some(cm));
            }
            let pairs: Vec<(String, JsonValue)> = vec![
                ("type".to_owned(), JsonValue::Str("response.output_text.delta".to_owned())),
                ("delta".to_owned(), content),
            ];
            let ghost pm = json_model_pairs(pairs@);
            proof {
                assert(cc_chunk_spec(chunk@) is Some);
                assert(pm =~= cc_chunk_spec(chunk@)->0->Obj_0);
            }
            let r = JsonValue::Obj(pairs);
            proof {
                assert(r@ == JsonModel::Obj(pm));
            }
            return Some(r);
        },
        None => {},
    }
    proof {
        assert(cc_delta_content(chunk@) is None);
    }
    let finished = match chunk.get("choices") {
        Some(chs) => match chs.as_arr() {
            Some(arr) => if arr.len() > 0 {
                match arr[0].get("finish_reason") {
                    Some(fr) => !fr.is_null(),
                    None => false,
                }
            } else {
                false
            },
            None => false,
        },
        None => false,
    };
    if finished {
        let mut core = cc_response_core_exec(chunk);
        let usage = match chunk.get("usage") {
            Some(v) => json_clone(v),
            None => JsonValue::Null,
        };
        let ghost um = usage@;
        let ghost core0 = json_model_pairs(core@);
        core.push(("usage".to_owned(), usage));
        let ghost corem = json_model_pairs(core@);
        proof {
            assert(um == or_default(obj_get(chunk@, "usage"@), JsonModel::Null));
            assert(corem =~= core0.push(("usage"@, um)));
        }
        let env = JsonValue::Obj(core);
        proof {
            assert(env@ == JsonModel::Obj(corem));
        }
        let pairs: Vec<(String, JsonValue)> = vec![
            ("type".to_owned(), JsonValue::Str("response.completed".to_owned())),
            ("response".to_owned(), env),
        ];
        let ghost pm = json_model_pairs(pairs@);
        proof {
            assert(pm =~= cc_chunk_spec(chunk@)->0->Obj_0);
        }
        let r = JsonValue::Obj(pairs);
        proof {
            assert(r@ == JsonModel::Obj(pm));
        }
        return Some(r);
    }
    let has_id = match chunk.get("id") {
        Some(_) => true,
        None => false,
    };
    let has_choices = match chunk.get("choices") {
        Some(_) => true,
        None => false,
    };
    if has_id && has_choices {
        let core = cc_response_core_exec(chunk);
        let ghost corem = json_model_pairs(core@);
        let env = JsonValue::Obj(core);
        proof {
            assert(env@ == JsonModel::Obj(corem));
        }
        let pairs: Vec<(String, JsonValue)> = vec![
            ("type".to_owned(), JsonValue::Str("response.created".to_owned())),
            ("response".to_owned(), env),
        ];
        let ghost pm = json_model_pairs(pairs@);
        proof {
            assert(pm =~= cc_chunk_spec(chunk@)->0->Obj_0);
        }
        let r = JsonValue::Obj(pairs);
        proof {
            assert(r@ == JsonModel::Obj(pm));
        }
        return Some(r);
    }
    None
}

/// The output line one raw body line yields: the `[DONE]` sentinel and
/// convertible `data:` chunks become `data:` lines, blank lines stay
/// blank, everything else is dropped.
pub open spec fn cc_line_out(line: Seq<u8>) -> Option<Seq<char>> {
    if bytes_starts_with_spec(line, encode_utf8("data: "@)) {
        let d = line.skip(encode_utf8("data: "@).len() as int);
        if d == encode_utf8("[DONE]"@) {
            Some("data: [DONE]"@)
        } else {
            match json_parse_spec(d) {
                Some(c) => match cc_chunk_spec(c) {
                    Some(v) => Some("data: "@ + json_text_spec(v)),
                    None => None,
                },
                None => None,
            }
        }
    } else if line.len() == 0 {
        Some(Seq::empty())
    } else {
        None
    }
}

/// The output lines of a whole streaming body.
pub open spec fn cc_out_lines(lines: Seq<Seq<u8>>) -> Seq<Seq<char>>
    decreases lines.len(),
{
    if lines.len() == 0 {
        Seq::empty()
    } else {
        (match cc_line_out(lines[0]) {
            Some(l) => seq![l],
            None => Seq::empty(),
        }) + cc_out_lines(lines.skip(1))
    }
}

/// The re-framed text of a Chat-Completions streaming body.
pub open spec fn cc_stream_text_spec(body: Seq<u8>) -> Seq<char> {
    join_lines(cc_out_lines(body_lines(body)))
}

/// Re-frame a Chat-Completions SSE body into Responses-style events.
#[verifier::loop_isolation(false)]
pub fn convert_chat_stream_body(body: &[u8]) -> (r: Vec<u8>)
    ensures
        r@ == encode_utf8(cc_stream_text_spec(body@)),
{
    let lines = split_body_lines(body);
    let ghost lm = lines.deep_view();
    let mut text = String::new();
    let mut any = false;
    let ghost mut outs: Seq<Seq<char>> = Seq::empty();
    let mut i: usize = 0;
    proof {
        assert(lm.skip(0) =~= lm);
        assert(outs + cc_out_lines(lm.skip(0)) =~= cc_out_lines(lm));
        assert(join_lines(outs) =~= text@);
    }
    while i < lines.len()
        invariant
            i <= lines@.len(),
            lines.deep_view() == lm,
            lm.len() == lines@.len(),
            forall|j: int| 0 <= j < lines@.len() ==> lm[j] == (#[trigger] lines@[j])@,
            outs + cc_out_lines(lm.skip(i as int)) == cc_out_lines(lm),
            text@ == join_lines(outs),
            any == (outs.len() > 0),
        decreases lines@.len() - i,
    {
        proof {
            assert(lm.skip(i as int)[0] == lm[i as int]);
            assert(lm.skip(i as int).skip(1) =~= lm.skip(i + 1));
        }
        let line = &lines[i];
        let out_line: Option<String> = cc_process_line(line);
        match out_line {
            Some(l) => {
                let ghost outs0 = outs;
                proof {
                    outs = outs.push(l@);
                    assert(outs.drop_last() =~= outs0);
                }
                if any {
                    text.append("\n\n");
                    text.append(l.as_str());
                } else {
                    text.append(l.as_str());
                    any = true;
                }
                proof {
                    assert(outs0.push(l@) + cc_out_lines(lm.skip(i + 1)) =~= outs0 + cc_out_lines(
                        lm.skip(i as int),
                    ));
                }
            },
            None => {
                proof {
                    assert(outs + cc_out_lines(lm.skip(i + 1)) =~= outs + cc_out_lines(
                        lm.skip(i as int),
                    ));
                }
            },
        }
        i += 1;
    }
    proof {
        assert(cc_out_lines(lm.skip(lm.len() as int)) =~= Seq::<Seq<char>>::empty());
        assert(outs + Seq::<Seq<char>>::empty() =~= outs);
    }
    text.as_str().as_bytes_vec()
}

/// Process one raw line of a Chat-Completions stream.
fn cc_process_line(line: &Vec<u8>) -> (r: Option<String>)
    ensures
        match r {
            Some(l) => cc_line_out(line@) == Some(l@),
            None => cc_line_out(line@) is None,
        },
{
    let data_prefix = "data: ";
    proof {
        assert(data_prefix.spec_bytes() == encode_utf8("data: "@));
        assert("[DONE]".spec_bytes() == encode_utf8("[DONE]"@));
    }
    let pfx = data_prefix.as_bytes();
    if bytes_starts_with(line.as_slice(), pfx) {
        let d = bytes_suffix(line.as_slice(), pfx.len());
        proof {
            assert(d@ == line@.skip(encode_utf8("data: "@).len() as int));
        }
        if bytes_eq(d.as_slice(), "[DONE]".as_bytes()) {
            proof {
                assert(d@ == encode_utf8("[DONE]"@));
            }
            return Some("data: [DONE]".to_owned());
        }
        match json_parse(d.as_slice()) {
            Some(c) => match convert_chat_chunk_to_responses_chunk(&c) {
                Some(v) => {
                    let mut l = "data: ".to_owned();
                    let vt = json_to_string(&v);
                    l.append(vt.as_str());
                    Some(l)
                },
                None => None,
            },
            None => None,
        }
    } else if line.len() == 0 {
        Some(String::new())
    } else {
        None
    }
}

/// Reconstruct the caller's Responses envelope from a Chat-Completions
/// response: a non-streaming body passes through re-serialized (the two
/// envelopes are treated as compatible), a streaming body is re-framed
/// event by event; an unparsable non-streaming body is a conversion
/// failure.
pub fn convert_chat_completions_to_responses_format(body: &[u8], is_streaming: bool) -> (r: Result<
    TranscodedResponse,
    ProxyError,
>)
    ensures
        if is_streaming {
            match r {
                Ok(t) => {
                    &&& t.status == 200
                    &&& t.headers.deep_view() == seq![
                        ("content-type"@, "text/event-stream"@),
                        ("cache-control"@, "no-cache"@),
                        ("connection"@, "keep-alive"@),
                    ]
                    &&& t.body@ == encode_utf8(cc_stream_text_spec(body@))
                },
                Err(_) => false,
            }
        } else {
            match json_parse_spec(body@) {
                Some(v) => match r {
                    Ok(t) => {
                        &&& t.status == 200
                        &&& t.headers.deep_view() == seq![("content-type"@, "application/json"@)]
                        &&& t.body@ == encode_utf8(json_text_spec(v))
                    },
                    Err(_) => false,
                },
                None => r matches Err(ProxyError::ConversionError(_)),
            }
        },
{
    if is_streaming {
        let out_body = convert_chat_stream_body(body);
        let headers: Vec<(String, String)> = vec![
            ("content-type".to_owned(), "text/event-stream".to_owned()),
            ("cache-control".to_owned(), "no-cache".to_owned()),
            ("connection".to_owned(), "keep-alive".to_owned()),
        ];
        proof {
            assert(headers.deep_view() =~= seq![
                ("content-type"@, "text/event-stream"@),
                ("cache-control"@, "no-cache"@),
                ("connection"@, "keep-alive"@),
            ]);
        }
        Ok(TranscodedResponse { status: 200, headers, body: out_body })
    } else {
        match json_parse(body) {
            Some(v) => {
                let text = json_to_string(&v);
                let out_body = text.as_str().as_bytes_vec();
                let headers: Vec<(String, String)> = vec![
                    ("content-type".to_owned(), "application/json".to_owned()),
                ];
                proof {
                    assert(headers.deep_view() =~= seq![("content-type"@, "application/json"@)]);
                }
                Ok(TranscodedResponse { status: 200, headers, body: out_body })
            },
            None => Err(ProxyError::ConversionError("Failed to parse response JSON".to_owned())),
        }
    }
}

} // verus!
