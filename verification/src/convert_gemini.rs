//! The Responses ⇄ Google Gemini converter.
//!
//! It fires for routes under the Google provider whose path serves a
//! `responses` endpoint and whose body names a model. On the way out the
//! Responses envelope becomes a `generateContent` request: non-system
//! input items turn into `contents`, system items are joined into
//! `systemInstruction`, and the sampling fields move into
//! `generationConfig`; the target URL is rebuilt as
//! `{base}/{model}:{generateContent|streamGenerateContent}` from the
//! request's stream flag. On the way back a streaming body is re-framed
//! line by line: one `response.created` the first time a chunk carries
//! candidates, a text delta per chunk with part text, and a
//! `response.completed` carrying `usageMetadata` once a finish reason
//! appears.

use vstd::prelude::*;

use crate::RequestConversion;
use crate::config::EndpointConfig;
use crate::convert_chat::same_route_policy;
use crate::json::{
    JsonModel, JsonValue, member_idx, json_clone, json_model_pairs, json_model_seq, json_parse, json_parse_spec,
    json_text_spec, json_to_string, lemma_json_model_pairs, lemma_json_model_seq, obj_get,
    opt_member, or_default,
};
use crate::sse::{body_lines, join_lines, split_body_lines};
use crate::text::{
    bytes_eq, bytes_starts_with, bytes_starts_with_spec, bytes_suffix, contains_sub_spec,
    eq_ignore_case, str_contains, str_eq, str_eq_ignore_case, str_trim_end_slashes,
    trim_end_slashes_spec,
};
use crate::transcode::TranscodedResponse;
use vstd::string::StringSliceAdditionalSpecFns;
use vstd::utf8::encode_utf8;

verus! {

/// The text the blocks of an array content flatten to: each block's string
/// `text`, or failing that its string `content`, concatenated.
pub open spec fn blocks_text(blocks: Seq<JsonModel>) -> Seq<char>
    decreases blocks.len(),
{
    if blocks.len() == 0 {
        Seq::empty()
    } else {
        block_text(blocks[0]) + blocks_text(blocks.skip(1))
    }
}

pub open spec fn block_text(b: JsonModel) -> Seq<char> {
    match obj_get(b, "text"@) {
        Some(JsonModel::Str(t)) => t,
        _ => match obj_get(b, "content"@) {
            Some(JsonModel::Str(t)) => t,
            _ => Seq::empty(),
        },
    }
}

/// The text a content value flattens to: a string verbatim, an array by
/// its blocks (falling back to the rendered JSON when they yield
/// nothing), anything else rendered as JSON.
pub open spec fn content_text(c: JsonModel) -> Seq<char> {
    match c {
        JsonModel::Str(s) => s,
        JsonModel::Arr(blocks) => if blocks_text(blocks).len() > 0 {
            blocks_text(blocks)
        } else {
            json_text_spec(c)
        },
        _ => json_text_spec(c),
    }
}

/// Flatten a content value to text.
#[verifier::loop_isolation(false)]
pub fn content_value_to_text(c: &JsonValue) -> (r: String)
    ensures
        r@ == content_text(c@),
{
    broadcast use lemma_json_model_seq;

    match c.as_str() {
        Some(s) => {
            return s.clone();
        },
        None => {},
    }
    match c.as_arr() {
        Some(blocks) => {
            let ghost bm = c@->Arr_0;
            let mut acc = String::new();
            let mut i: usize = 0;
            proof {
                assert(bm.skip(0) =~= bm);
                assert(acc@ + blocks_text(bm.skip(0)) =~= blocks_text(bm));
            }
            while i < blocks.len()
                invariant
                    i <= blocks@.len(),
                    bm.len() == blocks@.len(),
                    forall|j: int| 0 <= j < blocks@.len() ==> bm[j] == (#[trigger] blocks@[j])@,
                    acc@ + blocks_text(bm.skip(i as int)) == blocks_text(bm),
                decreases blocks@.len() - i,
            {
                proof {
                    assert(bm.skip(i as int)[0] == bm[i as int]);
                    assert(bm.skip(i as int).skip(1) =~= bm.skip(i + 1));
                }
                let b = &blocks[i];
                let mut t: Option<&String> = None;
                match b.get("text") {
                    Some(v) => match v.as_str() {
                        Some(s) => {
                            t = Some(s);
                        },
                        None => {},
                    },
                    None => {},
                }
                match t {
                    Some(s) => {
                        acc.append(s.as_str());
                    },
                    None => {
                        match b.get("content") {
                            Some(v) => match v.as_str() {
                                Some(s) => {
                                    acc.append(s.as_str());
                                },
                                None => {},
                            },
                            None => {},
                        }
                    },
                }
                proof {
                    assert(acc@ + blocks_text(bm.skip(i + 1)) =~= blocks_text(bm));
                }
                i += 1;
            }
            proof {
                assert(blocks_text(bm.skip(bm.len() as int)) =~= Seq::<char>::empty());
                assert(acc@ + Seq::<char>::empty() =~= acc@);
            }
            if acc.as_str().unicode_len() > 0 {
                return acc;
            }
            return json_to_string(c);
        },
        None => {},
    }
    json_to_string(c)
}

/// The role an input item carries, defaulting to `user`.
pub open spec fn item_role(item: JsonModel) -> Seq<char> {
    match obj_get(item, "role"@) {
        Some(JsonModel::Str(r)) => r,
        _ => "user"@,
    }
}

/// The content value of an input item, defaulting to the empty string.
pub open spec fn item_content(item: JsonModel) -> JsonModel {
    or_default(obj_get(item, "content"@), JsonModel::Str(Seq::empty()))
}

/// Whether an item addresses the system prompt, up to ASCII case.
pub open spec fn is_system_item(item: JsonModel) -> bool {
    eq_ignore_case(item_role(item), "system"@)
}

/// The Gemini `contents` entry one non-system item yields.
pub open spec fn gem_content_of(item: JsonModel) -> JsonModel {
    let grole: Seq<char> = if item_role(item) == "assistant"@ {
        "model"@
    } else {
        "user"@
    };
    JsonModel::Obj(
        seq![
            ("role"@, JsonModel::Str(grole)),
            (
                "parts"@,
                JsonModel::Arr(
                    seq![
                        JsonModel::Obj(
                            seq![("text"@, JsonModel::Str(content_text(item_content(item))))],
                        ),
                    ],
                ),
            ),
        ],
    )
}

/// The `contents` array: every non-system item, in order.
pub open spec fn gem_contents_spec(items: Seq<JsonModel>) -> Seq<JsonModel>
    decreases items.len(),
{
    if items.len() == 0 {
        Seq::empty()
    } else {
        (if is_system_item(items[0]) {
            Seq::empty()
        } else {
            seq![gem_content_of(items[0])]
        }) + gem_contents_spec(items.skip(1))
    }
}

/// The texts of the system items, in order.
pub open spec fn gem_system_texts(items: Seq<JsonModel>) -> Seq<Seq<char>>
    decreases items.len(),
{
    if items.len() == 0 {
        Seq::empty()
    } else {
        (if is_system_item(items[0]) {
            seq![content_text(item_content(items[0]))]
        } else {
            Seq::empty()
        }) + gem_system_texts(items.skip(1))
    }
}

/// The `generationConfig` members a request yields.
pub open spec fn gem_generation_config(req: JsonModel) -> Seq<(Seq<char>, JsonModel)> {
    opt_member("temperature"@, obj_get(req, "temperature"@)) + opt_member(
        "maxOutputTokens"@,
        obj_get(req, "max_completion_tokens"@),
    ) + opt_member("topP"@, obj_get(req, "top_p"@)) + opt_member("topK"@, obj_get(req, "top_k"@))
}

/// The input items of a request, or nothing when `input` is not an array.
pub open spec fn req_items(req: JsonModel) -> Seq<JsonModel> {
    match obj_get(req, "input"@) {
        Some(JsonModel::Arr(items)) => items,
        _ => Seq::empty(),
    }
}

/// The Gemini `generateContent` request a Responses request converts to.
pub open spec fn gem_request_spec(req: JsonModel) -> JsonModel {
    let items = req_items(req);
    let gen = gem_generation_config(req);
    let sys = gem_system_texts(items);
    let base = seq![("contents"@, JsonModel::Arr(gem_contents_spec(items)))];
    let with_gen = if gen.len() > 0 {
        base.push(("generationConfig"@, JsonModel::Obj(gen)))
    } else {
        base
    };
    let with_sys = if sys.len() > 0 {
        with_gen.push(
            (
                "systemInstruction"@,
                JsonModel::Obj(
                    seq![
                        (
                            "parts"@,
                            JsonModel::Arr(
                                seq![
                                    JsonModel::Obj(
                                        seq![("text"@, JsonModel::Str(join_lines(sys)))],
                                    ),
                                ],
                            ),
                        ),
                    ],
                ),
            ),
        )
    } else {
        with_gen
    };
    JsonModel::Obj(with_sys)
}

/// Build one Gemini `contents` entry.
fn gem_content_exec(item: &JsonValue) -> (r: JsonValue)
    ensures
        r@ == gem_content_of(item@),
{
    broadcast use {lemma_json_model_pairs, lemma_json_model_seq};

    let role: String = match item.get("role") {
        Some(v) => match v.as_str() {
            Some(s) => s.clone(),
            None => "user".to_owned(),
        },
        None => "user".to_owned(),
    };
    let grole: String = if str_eq(role.as_str(), "assistant") {
        "model".to_owned()
    } else {
        "user".to_owned()
    };
    let content = match item.get("content") {
        Some(v) => json_clone(v),
        None => JsonValue::Str(String::new()),
    };
    proof {
        assert(content@ == item_content(item@));
        assert(grole@ == (if item_role(item@) == "assistant"@ {
            "model"@
        } else {
            "user"@
        }));
    }
    let text = content_value_to_text(&content);
    let part_pairs: Vec<(String, JsonValue)> = vec![("text".to_owned(), JsonValue::Str(text))];
    let ghost ppm = json_model_pairs(part_pairs@);
    proof {
        assert(ppm =~= seq![("text"@, JsonModel::Str(content_text(item_content(item@))))]);
    }
    let part = JsonValue::Obj(part_pairs);
    let parts_vec: Vec<JsonValue> = vec![part];
    let ghost pvm = json_model_seq(parts_vec@);
    proof {
        assert(pvm =~= seq![JsonModel::Obj(ppm)]);
    }
    let pairs: Vec<(String, JsonValue)> = vec![
        ("role".to_owned(), JsonValue::Str(grole)),
        ("parts".to_owned(), JsonValue::Arr(parts_vec)),
    ];
    let ghost pm = json_model_pairs(pairs@);
    proof {
        assert(pm =~= gem_content_of(item@)->Obj_0);
    }
    let r = JsonValue::Obj(pairs);
    proof {
        assert(r@ == JsonModel::Obj(pm));
    }
    r
}

/// Convert a Responses request body to the Gemini shape.
#[verifier::loop_isolation(false)]
pub fn convert_responses_to_gemini_request(req: &JsonValue) -> (r: JsonValue)
    ensures
        r@ == gem_request_spec(req@),
{
    broadcast use {lemma_json_model_pairs, lemma_json_model_seq};

    let mut contents: Vec<JsonValue> = Vec::new();
    let mut sys_text = String::new();
    let mut sys_any = false;
    let ghost itemsm = req_items(req@);
    let ghost mut sys_seq: Seq<Seq<char>> = Seq::empty();
    match req.get("input") {
        Some(inp) => match inp.as_arr() {
            Some(items) => {
                let mut i: usize = 0;
                proof {
                    assert(itemsm.skip(0) =~= itemsm);
                    assert(json_model_seq(contents@) + gem_contents_spec(itemsm.skip(0))
                        =~= gem_contents_spec(itemsm));
                    assert(sys_seq + gem_system_texts(itemsm.skip(0)) =~= gem_system_texts(itemsm));
                }
                while i < items.len()
                    invariant
                        i <= items@.len(),
                        itemsm.len() == items@.len(),
                        forall|j: int| 0 <= j < items@.len() ==> itemsm[j] == (#[trigger] items@[j])@,
                        json_model_seq(contents@) + gem_contents_spec(itemsm.skip(i as int))
                            == gem_contents_spec(itemsm),
                        sys_seq + gem_system_texts(itemsm.skip(i as int)) == gem_system_texts(
                            itemsm,
                        ),
                        sys_text@ == join_lines(sys_seq),
                        sys_any == (sys_seq.len() > 0),
                    decreases items@.len() - i,
                {
                    proof {
                        assert(itemsm.skip(i as int)[0] == itemsm[i as int]);
                        assert(itemsm.skip(i as int).skip(1) =~= itemsm.skip(i + 1));
                    }
                    let item = &items[i];
                    let role: Option<&String> = match item.get("role") {
                        Some(v) => v.as_str(),
                        None => None,
                    };
                    let is_system = match role {
                        Some(r) => str_eq_ignore_case(r.as_str(), "system"),
                        None => false,
                    };
                    proof {
                        reveal_strlit("user");
                        reveal_strlit("system");
                        assert(is_system == is_system_item(itemsm[i as int]));
                    }
                    if is_system {
                        let content = match item.get("content") {
                            Some(v) => json_clone(v),
                            None => JsonValue::Str(String::new()),
                        };
                        proof {
                            assert(content@ == item_content(itemsm[i as int]));
                        }
                        let txt = content_value_to_text(&content);
                        let ghost sys0 = sys_seq;
                        proof {
                            sys_seq = sys_seq.push(txt@);
                            assert(sys_seq.drop_last() =~= sys0);
                        }
                        if sys_any {
                            sys_text.append("\n\n");
                            sys_text.append(txt.as_str());
                        } else {
                            sys_text.append(txt.as_str());
                            sys_any = true;
                        }
                        proof {
                            assert(sys0.push(txt@) + gem_system_texts(itemsm.skip(i + 1))
                                =~= sys0 + gem_system_texts(itemsm.skip(i as int)));
                            assert(json_model_seq(contents@) + gem_contents_spec(itemsm.skip(i + 1))
                                =~= json_model_seq(contents@) + gem_contents_spec(
                                itemsm.skip(i as int),
                            ));
                        }
                    } else {
                        let ghost c0 = json_model_seq(contents@);
                        let entry = gem_content_exec(item);
                        contents.push(entry);
                        proof {
                            assert(json_model_seq(contents@) =~= c0.push(
                                gem_content_of(itemsm[i as int]),
                            ));
                            assert(c0.push(gem_content_of(itemsm[i as int])) + gem_contents_spec(
                                itemsm.skip(i + 1),
                            ) =~= c0 + gem_contents_spec(itemsm.skip(i as int)));
                            assert(sys_seq + gem_system_texts(itemsm.skip(i + 1)) =~= sys_seq
                                + gem_system_texts(itemsm.skip(i as int)));
                        }
                    }
                    i += 1;
                }
                proof {
                    assert(gem_contents_spec(itemsm.skip(itemsm.len() as int))
                        =~= Seq::<JsonModel>::empty());
                    assert(gem_system_texts(itemsm.skip(itemsm.len() as int))
                        =~= Seq::<Seq<char>>::empty());
                    assert(json_model_seq(contents@) + Seq::<JsonModel>::empty()
                        =~= json_model_seq(contents@));
                    assert(sys_seq + Seq::<Seq<char>>::empty() =~= sys_seq);
                }
            },
            None => {
                proof {
                    assert(gem_contents_spec(itemsm) =~= Seq::<JsonModel>::empty());
                    assert(gem_system_texts(itemsm) =~= Seq::<Seq<char>>::empty());
                    assert(json_model_seq(contents@) =~= gem_contents_spec(itemsm));
                }
            },
        },
        None => {
            proof {
                assert(gem_contents_spec(itemsm) =~= Seq::<JsonModel>::empty());
                assert(gem_system_texts(itemsm) =~= Seq::<Seq<char>>::empty());
                assert(json_model_seq(contents@) =~= gem_contents_spec(itemsm));
            }
        },
    }
    let ghost cm = json_model_seq(contents@);
    let mut out: Vec<(String, JsonValue)> = vec![
        ("contents".to_owned(), JsonValue::Arr(contents)),
    ];
    proof {
        assert(json_model_pairs(out@) =~= seq![
            ("contents"@, JsonModel::Arr(gem_contents_spec(itemsm))),
        ]);
    }
    let mut gen: Vec<(String, JsonValue)> = Vec::new();
    match req.get("temperature") {
        Some(v) => {
            gen.push(("temperature".to_owned(), json_clone(v)));
        },
        None => {},
    }
    proof {
        assert(json_model_pairs(gen@) =~= opt_member(
            "temperature"@,
            obj_get(req@, "temperature"@),
        ));
    }
    let ghost g0 = json_model_pairs(gen@);
    match req.get("max_completion_tokens") {
        Some(v) => {
            gen.push(("maxOutputTokens".to_owned(), json_clone(v)));
        },
        None => {},
    }
    proof {
        assert(json_model_pairs(gen@) =~= g0 + opt_member(
            "maxOutputTokens"@,
            obj_get(req@, "max_completion_tokens"@),
        ));
    }
    let ghost g0 = json_model_pairs(gen@);
    match req.get("top_p") {
        Some(v) => {
            gen.push(("topP".to_owned(), json_clone(v)));
        },
        None => {},
    }
    proof {
        assert(json_model_pairs(gen@) =~= g0 + opt_member("topP"@, obj_get(req@, "top_p"@)));
    }
    let ghost g0 = json_model_pairs(gen@);
    match req.get("top_k") {
        Some(v) => {
            gen.push(("topK".to_owned(), json_clone(v)));
        },
        None => {},
    }
    proof {
        assert(json_model_pairs(gen@) =~= g0 + opt_member("topK"@, obj_get(req@, "top_k"@)));
        assert(json_model_pairs(gen@) =~= gem_generation_config(req@));
    }
    let ghost base = json_model_pairs(out@);
    if gen.len() > 0 {
        let ghost genm = json_model_pairs(gen@);
        out.push(("generationConfig".to_owned(), JsonValue::Obj(gen)));
        proof {
            assert(json_model_pairs(out@) =~= base.push(
                ("generationConfig"@, JsonModel::Obj(genm)),
            ));
        }
    }
    let ghost with_gen = json_model_pairs(out@);
    if sys_any {
        let spairs: Vec<(String, JsonValue)> = vec![("text".to_owned(), JsonValue::Str(sys_text))];
        let ghost spm = json_model_pairs(spairs@);
        proof {
            assert(spm =~= seq![("text"@, JsonModel::Str(join_lines(sys_seq)))]);
        }
        let sobj = JsonValue::Obj(spairs);
        let sarr_vec: Vec<JsonValue> = vec![sobj];
        let ghost sam = json_model_seq(sarr_vec@);
        proof {
            assert(sam =~= seq![JsonModel::Obj(spm)]);
        }
        let parts_pairs: Vec<(String, JsonValue)> = vec![
            ("parts".to_owned(), JsonValue::Arr(sarr_vec)),
        ];
        let ghost ppm = json_model_pairs(parts_pairs@);
        proof {
            assert(ppm =~= seq![("parts"@, JsonModel::Arr(sam))]);
        }
        out.push(("systemInstruction".to_owned(), JsonValue::Obj(parts_pairs)));
        proof {
            assert(json_model_pairs(out@) =~= with_gen.push(
                ("systemInstruction"@, JsonModel::Obj(ppm)),
            ));
        }
    }
    let ghost outm = json_model_pairs(out@);
    proof {
        assert(outm =~= gem_request_spec(req@)->Obj_0);
    }
    let r = JsonValue::Obj(out);
    proof {
        assert(r@ == JsonModel::Obj(outm));
    }
    r
}

/// Whether the Gemini conversion fires: a Google provider `responses` path
/// and a parsed body whose `model` is a non-empty string.
pub open spec fn gemini_applies(path: Seq<char>, parsed: Option<JsonModel>) -> bool {
    &&& contains_sub_spec(path, "/api/provider/google/"@)
    &&& contains_sub_spec(path, "/responses"@)
    &&& match parsed {
        Some(req) => match obj_get(req, "model"@) {
            Some(JsonModel::Str(m)) => m.len() > 0,
            _ => false,
        },
        None => false,
    }
}

/// The operation the request's stream flag selects.
pub open spec fn gem_op(streaming: bool) -> Seq<char> {
    if streaming {
        "streamGenerateContent"@
    } else {
        "generateContent"@
    }
}

/// The rebuilt target URL: the base without trailing slashes, then
/// `/{model}:{op}`.
pub open spec fn gem_target_url(base: Seq<char>, model: Seq<char>, streaming: bool) -> Seq<char> {
    trim_end_slashes_spec(base) + "/"@ + model + ":"@ + gem_op(streaming)
}

/// The rebuilt local path for the rewritten route.
pub open spec fn gem_path(model: Seq<char>, streaming: bool) -> Seq<char> {
    "/api/provider/google/v1beta/models/"@ + model + ":"@ + gem_op(streaming)
}

/// Recognize a Google Responses request and convert it to a Gemini
/// `generateContent` call, rebuilding the route's path and target;
/// everything else passes through untouched.
pub fn handle_google_responses_conversion(config: EndpointConfig, body: &[u8]) -> (r:
    RequestConversion)
    ensures
        same_route_policy(r.config, config),
        if gemini_applies(config.path@, json_parse_spec(body@)) {
            let req = json_parse_spec(body@)->0;
            let model = obj_get(req, "model"@)->0->Str_0;
            &&& r.converted
            &&& r.streaming == crate::convert_chat::declared_streaming(req)
            &&& r.config.target_url@ == gem_target_url(config.target_url@, model, r.streaming)
            &&& r.config.path@ == gem_path(model, r.streaming)
            &&& r.body@ == encode_utf8(json_text_spec(gem_request_spec(req)))
        } else {
            &&& !r.converted
            &&& r.config == config
            &&& r.body@ == body@
            &&& !r.streaming
        },
{
    let applies_path = str_contains(config.path.as_str(), "/api/provider/google/") && str_contains(
        config.path.as_str(),
        "/responses",
    );
    if !applies_path {
        return gem_passthrough(config, body);
    }
    let parsed = json_parse(body);
    match parsed {
        None => gem_passthrough(config, body),
        Some(req) => {
            let model: Option<String> = match req.get("model") {
                Some(m) => match m.as_str() {
                    Some(s) => if s.as_str().unicode_len() > 0 {
                        Some(s.clone())
                    } else {
                        None
                    },
                    None => None,
                },
                None => None,
            };
            match model {
                None => gem_passthrough(config, body),
                Some(model) => {
                    let streaming = match req.get("stream") {
                        Some(v) => match v.as_bool() {
                            Some(b) => b,
                            None => false,
                        },
                        None => false,
                    };
                    let gem_req = convert_responses_to_gemini_request(&req);
                    let text = json_to_string(&gem_req);
                    let out_body = text.as_str().as_bytes_vec();
                    let op = if streaming {
                        "streamGenerateContent"
                    } else {
                        "generateContent"
                    };
                    let mut target = str_trim_end_slashes(config.target_url.as_str());
                    target.append("/");
                    target.append(model.as_str());
                    target.append(":");
                    target.append(op);
                    let mut path = "/api/provider/google/v1beta/models/".to_owned();
                    path.append(model.as_str());
                    path.append(":");
                    path.append(op);
                    let mut config = config;
                    config.target_url = target;
                    config.path = path;
                    RequestConversion { config, body: out_body, converted: true, streaming }
                },
            }
        },
    }
}

/// A plan that forwards the request exactly as it came.
fn gem_passthrough(config: EndpointConfig, body: &[u8]) -> (r: RequestConversion)
    ensures
        r.config == config,
        r.body@ == body@,
        !r.converted,
        !r.streaming,
{
    let mut b: Vec<u8> = Vec::new();
    b.extend_from_slice(body);
    proof {
        assert(b@ =~= body@);
    }
    RequestConversion { config, body: b, converted: false, streaming: false }
}

/// The first element of the `candidates` array, when there is one.
pub open spec fn first_candidate(c: JsonModel) -> Option<JsonModel> {
    match obj_get(c, "candidates"@) {
        Some(JsonModel::Arr(cs)) => if cs.len() > 0 {
            Some(cs[0])
        } else {
            None
        },
        _ => None,
    }
}

/// The parts array of a chunk's first candidate, when it has one.
pub open spec fn gem_parts_of(c: JsonModel) -> Seq<JsonModel> {
    match first_candidate(c) {
        Some(cand) => match obj_get(cand, "content"@) {
            Some(content) => match obj_get(content, "parts"@) {
                Some(JsonModel::Arr(parts)) => parts,
                _ => Seq::empty(),
            },
            None => Seq::empty(),
        },
        None => Seq::empty(),
    }
}

/// The concatenated text of `candidates[0].content.parts[*].text`.
pub open spec fn gem_delta_text(c: JsonModel) -> Seq<char> {
    parts_text(gem_parts_of(c))
}

pub open spec fn parts_text(parts: Seq<JsonModel>) -> Seq<char>
    decreases parts.len(),
{
    if parts.len() == 0 {
        Seq::empty()
    } else {
        (match obj_get(parts[0], "text"@) {
            Some(JsonModel::Str(t)) => t,
            _ => Seq::empty(),
        }) + parts_text(parts.skip(1))
    }
}

/// Whether the first candidate carries a non-null `finishReason`.
pub open spec fn gem_finished(c: JsonModel) -> bool {
    match first_candidate(c) {
        Some(cand) => match obj_get(cand, "finishReason"@) {
            Some(fr) => !(fr is Null),
            None => false,
        },
        None => false,
    }
}

/// The `response` envelope summarizing a chunk, with Gemini defaults.
pub open spec fn gem_response_core(c: JsonModel) -> Seq<(Seq<char>, JsonModel)> {
    seq![
        ("id"@, or_default(obj_get(c, "id"@), JsonModel::Str("response-unknown"@))),
        ("object"@, JsonModel::Str("response"@)),
        ("created"@, or_default(obj_get(c, "created"@), JsonModel::Num("0"@))),
        ("model"@, or_default(obj_get(c, "model"@), JsonModel::Str("gemini"@))),
    ]
}

/// The `response.created` event of a chunk.
pub open spec fn gem_created_event(c: JsonModel) -> JsonModel {
    JsonModel::Obj(
        seq![
            ("type"@, JsonModel::Str("response.created"@)),
            ("response"@, JsonModel::Obj(gem_response_core(c))),
        ],
    )
}

/// The text delta event of a chunk.
pub open spec fn gem_delta_event(c: JsonModel) -> JsonModel {
    JsonModel::Obj(
        seq![
            ("type"@, JsonModel::Str("response.output_text.delta"@)),
            ("delta"@, JsonModel::Str(gem_delta_text(c))),
        ],
    )
}

/// The `response.completed` event of a chunk, carrying `usageMetadata` as
/// `usage`.
pub open spec fn gem_completed_event(c: JsonModel) -> JsonModel {
    JsonModel::Obj(
        seq![
            ("type"@, JsonModel::Str("response.completed"@)),
            (
                "response"@,
                JsonModel::Obj(
                    gem_response_core(c).push(
                        ("usage"@, or_default(obj_get(c, "usageMetadata"@), JsonModel::Null)),
                    ),
                ),
            ),
        ],
    )
}

/// The output lines one raw line of a Gemini stream yields, given whether
/// a `response.created` has already been emitted.
pub open spec fn gem_line_out(line: Seq<u8>, created: bool) -> Seq<Seq<char>> {
    if bytes_starts_with_spec(line, encode_utf8("data: "@)) {
        let d = line.skip(encode_utf8("data: "@).len() as int);
        if d == encode_utf8("[DONE]"@) {
            seq!["data: [DONE]"@]
        } else {
            match json_parse_spec(d) {
                Some(c) => (if obj_get(c, "candidates"@) is Some && !created {
                    seq!["data: "@ + json_text_spec(gem_created_event(c))]
                } else {
                    Seq::empty()
                }) + (if gem_delta_text(c).len() > 0 {
                    seq!["data: "@ + json_text_spec(gem_delta_event(c))]
                } else {
                    Seq::empty()
                }) + (if gem_finished(c) {
                    seq!["data: "@ + json_text_spec(gem_completed_event(c))]
                } else {
                    Seq::empty()
                }),
                None => Seq::empty(),
            }
        }
    } else if line.len() == 0 {
        seq![Seq::<char>::empty()]
    } else {
        Seq::empty()
    }
}

/// Whether a `response.created` has been emitted after this line.
pub open spec fn gem_created_after(line: Seq<u8>, created: bool) -> bool {
    created || {
        &&& bytes_starts_with_spec(line, encode_utf8("data: "@))
        &&& line.skip(encode_utf8("data: "@).len() as int) != encode_utf8("[DONE]"@)
        &&& match json_parse_spec(line.skip(encode_utf8("data: "@).len() as int)) {
            Some(c) => obj_get(c, "candidates"@) is Some,
            None => false,
        }
    }
}

/// The output lines of a whole streaming body.
pub open spec fn gem_out_lines(lines: Seq<Seq<u8>>, created: bool) -> Seq<Seq<char>>
    decreases lines.len(),
{
    if lines.len() == 0 {
        Seq::empty()
    } else {
        gem_line_out(lines[0], created) + gem_out_lines(
            lines.skip(1),
            gem_created_after(lines[0], created),
        )
    }
}

/// The re-framed text of a Gemini streaming body.
pub open spec fn gem_stream_text_spec(body: Seq<u8>) -> Seq<char> {
    join_lines(gem_out_lines(body_lines(body), false))
}

/// The events one parsed chunk yields, as documents: an optional creation
/// notice, an optional text delta, an optional completion, in that order.
pub open spec fn gem_chunk_events(c: JsonModel, created: bool) -> Seq<JsonModel> {
    (if obj_get(c, "candidates"@) is Some && !created {
        seq![gem_created_event(c)]
    } else {
        Seq::empty()
    }) + (if gem_delta_text(c).len() > 0 {
        seq![gem_delta_event(c)]
    } else {
        Seq::empty()
    }) + (if gem_finished(c) {
        seq![gem_completed_event(c)]
    } else {
        Seq::empty()
    })
}

/// The lines of a convertible `data:` chunk are exactly its events, each
/// rendered behind a `data: ` prefix.
pub proof fn lemma_gem_line_renders_events(line: Seq<u8>, created: bool)
    requires
        bytes_starts_with_spec(line, encode_utf8("data: "@)),
        line.skip(encode_utf8("data: "@).len() as int) != encode_utf8("[DONE]"@),
        json_parse_spec(line.skip(encode_utf8("data: "@).len() as int)) is Some,
    ensures
        gem_line_out(line, created) =~= gem_chunk_events(
            json_parse_spec(line.skip(encode_utf8("data: "@).len() as int))->0,
            created,
        ).map_values(|e: JsonModel| "data: "@ + json_text_spec(e)),
{
}

/// A chunk whose first candidate carries a non-null `finishReason` yields
/// exactly one `response.completed` event — the last one — and that event
/// carries the chunk's `usageMetadata` as `usage`.
pub proof fn lemma_finished_yields_one_completed(c: JsonModel, created: bool)
    requires
        gem_finished(c),
    ensures
        ({
            let evs = gem_chunk_events(c, created);
            &&& evs.len() > 0
            &&& evs.last() == gem_completed_event(c)
            &&& forall|k: int|
                0 <= k < evs.len() - 1 ==> obj_get(#[trigger] evs[k], "type"@) != Some(
                    JsonModel::Str("response.completed"@),
                )
        }),
        obj_get(gem_completed_event(c), "type"@) == Some(JsonModel::Str("response.completed"@)),
        match obj_get(gem_completed_event(c), "response"@) {
            Some(env) => obj_get(env, "usage"@) == Some(
                or_default(obj_get(c, "usageMetadata"@), JsonModel::Null),
            ),
            None => false,
        },
{
    broadcast use vstd::string::group_string_axioms;

    reveal_strlit("type");
    reveal_strlit("delta");
    reveal_strlit("response");
    reveal_strlit("id");
    reveal_strlit("object");
    reveal_strlit("created");
    reveal_strlit("model");
    reveal_strlit("usage");
    reveal_strlit("response.created");
    reveal_strlit("response.completed");
    reveal_strlit("response.output_text.delta");
    let evs = gem_chunk_events(c, created);
    assert(obj_get(gem_created_event(c), "type"@) == Some(JsonModel::Str("response.created"@)));
    assert(obj_get(gem_delta_event(c), "type"@) == Some(
        JsonModel::Str("response.output_text.delta"@),
    ));
    assert(obj_get(gem_completed_event(c), "type"@) == Some(
        JsonModel::Str("response.completed"@),
    ));
    assert("response.created"@.len() != "response.completed"@.len());
    assert("response.output_text.delta"@.len() != "response.completed"@.len());
    let env = gem_response_core(c).push(
        ("usage"@, or_default(obj_get(c, "usageMetadata"@), JsonModel::Null)),
    );
    assert(member_idx(env, "usage"@) == 4) by {
        assert(env[0].0 == "id"@);
        assert(env[1].0 == "object"@);
        assert(env[2].0 == "created"@);
        assert(env[3].0 == "model"@);
        assert(env[4].0 == "usage"@);
        assert("id"@.len() == 2);
        assert("usage"@.len() == 5);
        assert("model"@.len() == 5);
        assert("model"@[0] == 'm');
        assert("usage"@[0] == 'u');
        assert(env[0].0 != "usage"@);
        assert(env[1].0 != "usage"@);
        assert(env[2].0 != "usage"@);
        assert(env[3].0 != "usage"@);
        crate::json::lemma_member_idx_at(env, "usage"@, 4);
    }
    assert(obj_get(JsonModel::Obj(env), "usage"@) == Some(
        or_default(obj_get(c, "usageMetadata"@), JsonModel::Null),
    ));
    let top = gem_completed_event(c)->Obj_0;
    assert(member_idx(top, "response"@) == 1) by {
        assert(top[0].0 == "type"@);
        assert("type"@.len() == 4);
        assert("response"@.len() == 8);
        assert(top[0].0 != "response"@);
        assert(top[1].0 == "response"@);
        crate::json::lemma_member_idx_at(top, "response"@, 1);
    }
    assert(obj_get(gem_completed_event(c), "response"@) == Some(JsonModel::Obj(env)));
}

/// Build the `response` envelope members of a chunk.
fn gem_response_core_exec(c: &JsonValue) -> (r: Vec<(String, JsonValue)>)
    ensures
        json_model_pairs(r@) == gem_response_core(c@),
{
    broadcast use lemma_json_model_pairs;

    let id = match c.get("id") {
        Some(v) => json_clone(v),
        None => JsonValue::Str("response-unknown".to_owned()),
    };
    let created = match c.get("created") {
        Some(v) => json_clone(v),
        None => JsonValue::Num("0".to_owned()),
    };
    let model = match c.get("model") {
        Some(v) => json_clone(v),
        None => JsonValue::Str("gemini".to_owned()),
    };
    let r: Vec<(String, JsonValue)> = vec![
        ("id".to_owned(), id),
        ("object".to_owned(), JsonValue::Str("response".to_owned())),
        ("created".to_owned(), created),
        ("model".to_owned(), model),
    ];
    proof {
        assert(json_model_pairs(r@) =~= gem_response_core(c@));
    }
    r
}

/// Process one raw line of a Gemini stream, threading the created flag.
fn gem_process_line(line: &Vec<u8>, created: bool) -> (r: (Vec<String>, bool))
    ensures
        r.0.deep_view() == gem_line_out(line@, created),
        r.1 == gem_created_after(line@, created),
{
    broadcast use lemma_json_model_pairs;

    let data_prefix = "data: ";
    proof {
        assert(data_prefix.spec_bytes() == encode_utf8("data: "@));
        assert("[DONE]".spec_bytes() == encode_utf8("[DONE]"@));
    }
    let pfx = data_prefix.as_bytes();
    let mut outs: Vec<String> = Vec::new();
    if bytes_starts_with(line.as_slice(), pfx) {
        let d = bytes_suffix(line.as_slice(), pfx.len());
        proof {
            assert(d@ == line@.skip(encode_utf8("data: "@).len() as int));
        }
        if bytes_eq(d.as_slice(), "[DONE]".as_bytes()) {
            outs.push("data: [DONE]".to_owned());
            proof {
                assert(outs.deep_view() =~= gem_line_out(line@, created));
            }
            return (outs, created);
        }
        match json_parse(d.as_slice()) {
            Some(c) => {
                let has_candidates = match c.get("candidates") {
                    Some(_) => true,
                    None => false,
                };
                let mut new_created = created;
                if has_candidates && !created {
                    let core = gem_response_core_exec(&c);
                    let ghost corem = json_model_pairs(core@);
                    let env = JsonValue::Obj(core);
                    proof {
                        assert(env@ == JsonModel::Obj(corem));
                    }
                    let pairs: Vec<(String, JsonValue)> = vec![
                        ("type".to_owned(), JsonValue::Str("response.created".to_owned())),
                        ("response".to_owned(), env),
                    ];
                    let ghost pm = json_model_pairs(pairs@);
                    proof {
                        assert(pm =~= gem_created_event(c@)->Obj_0);
                    }
                    let evt = JsonValue::Obj(pairs);
                    proof {
                        assert(evt@ == JsonModel::Obj(pm));
                        assert(evt@ == gem_created_event(c@));
                    }
                    let mut l = "data: ".to_owned();
                    let et = json_to_string(&evt);
                    l.append(et.as_str());
                    outs.push(l);
                    new_created = true;
                }
                let ghost outs_created = outs.deep_view();
                let delta = gem_delta_text_exec(&c);
                if delta.as_str().unicode_len() > 0 {
                    let pairs: Vec<(String, JsonValue)> = vec![
                        (
                            "type".to_owned(),
                            JsonValue::Str("response.output_text.delta".to_owned()),
                        ),
                        ("delta".to_owned(), JsonValue::Str(delta)),
                    ];
                    let ghost pm = json_model_pairs(pairs@);
                    proof {
                        assert(pm =~= gem_delta_event(c@)->Obj_0);
                    }
                    let evt = JsonValue::Obj(pairs);
                    proof {
                        assert(evt@ == JsonModel::Obj(pm));
                        assert(evt@ == gem_delta_event(c@));
                    }
                    let mut l = "data: ".to_owned();
                    let et = json_to_string(&evt);
                    l.append(et.as_str());
                    outs.push(l);
                }
                let ghost outs_delta = outs.deep_view();
                let finished = match c.get("candidates") {
                    Some(cands) => match cands.as_arr() {
                        Some(arr) => if arr.len() > 0 {
                            match arr[0].get("finishReason") {
                                Some(fr) => !fr.is_null(),
                                None => false,
                            }
                        } else {
                            false
                        },
                        None => false,
                    },
                    None => false,
                };
                if finished {
                    let mut core = gem_response_core_exec(&c);
                    let usage = match c.get("usageMetadata") {
                        Some(v) => json_clone(v),
                        None => JsonValue::Null,
                    };
                    let ghost um = usage@;
                    let ghost core0 = json_model_pairs(core@);
                    core.push(("usage".to_owned(), usage));
                    let ghost corem = json_model_pairs(core@);
                    proof {
                        assert(corem =~= core0.push(("usage"@, um)));
                    }
                    let env = JsonValue::Obj(core);
                    proof {
                        assert(env@ == JsonModel::Obj(corem));
                    }
                    let pairs: Vec<(String, JsonValue)> = vec![
                        ("type".to_owned(), JsonValue::Str("response.completed".to_owned())),
                        ("response".to_owned(), env),
                    ];
                    let ghost pm = json_model_pairs(pairs@);
                    proof {
                        assert(pm =~= gem_completed_event(c@)->Obj_0);
                    }
                    let evt = JsonValue::Obj(pairs);
                    proof {
                        assert(evt@ == JsonModel::Obj(pm));
                        assert(evt@ == gem_completed_event(c@));
                    }
                    let mut l = "data: ".to_owned();
                    let et = json_to_string(&evt);
                    l.append(et.as_str());
                    outs.push(l);
                }
                proof {
                    assert(outs.deep_view() =~~= gem_line_out(line@, created));
                }
                (outs, new_created)
            },
            None => {
                proof {
                    assert(outs.deep_view() =~= gem_line_out(line@, created));
                }
                (outs, created)
            },
        }
    } else if line.len() == 0 {
        outs.push(String::new());
        proof {
            assert(outs.deep_view() =~= gem_line_out(line@, created));
        }
        (outs, created)
    } else {
        proof {
            assert(outs.deep_view() =~= gem_line_out(line@, created));
        }
        (outs, created)
    }
}

/// Concatenate the part texts of a chunk's first candidate.
#[verifier::loop_isolation(false)]
fn gem_delta_text_exec(c: &JsonValue) -> (r: String)
    ensures
        r@ == gem_delta_text(c@),
{
    let mut acc = String::new();
    let parts: Option<&Vec<JsonValue>> = match c.get("candidates") {
        Some(cands) => match cands.as_arr() {
            Some(arr) => if arr.len() > 0 {
                match arr[0].get("content") {
                    Some(content) => match content.get("parts") {
                        Some(p) => match p.as_arr() {
                            Some(parr) => {
                                proof {
                                    assert(parts_model(parr) =~= gem_parts_of(c@));
                                }
                                Some(parr)
                            },
                            None => None,
                        },
                        None => None,
                    },
                    None => None,
                }
            } else {
                None
            },
            None => None,
        },
        None => None,
    };
    match parts {
        Some(parr) => {
            let ghost pm = parts_model(parr);
            proof {
                assert(gem_delta_text(c@) == parts_text(pm));
            }
            let mut i: usize = 0;
            proof {
                assert(pm.skip(0) =~= pm);
                assert(acc@ + parts_text(pm.skip(0)) =~= parts_text(pm));
            }
            while i < parr.len()
                invariant
                    i <= parr@.len(),
                    pm.len() == parr@.len(),
                    forall|j: int| 0 <= j < parr@.len() ==> pm[j] == (#[trigger] parr@[j])@,
                    acc@ + parts_text(pm.skip(i as int)) == parts_text(pm),
                decreases parr@.len() - i,
            {
                proof {
                    assert(pm.skip(i as int)[0] == pm[i as int]);
                    assert(pm.skip(i as int).skip(1) =~= pm.skip(i + 1));
                }
                match parr[i].get("text") {
                    Some(t) => match t.as_str() {
                        Some(s) => {
                            acc.append(s.as_str());
                        },
                        None => {},
                    },
                    None => {},
                }
                proof {
                    assert(acc@ + parts_text(pm.skip(i + 1)) =~= parts_text(pm));
                }
                i += 1;
            }
            proof {
                assert(parts_text(pm.skip(pm.len() as int)) =~= Seq::<char>::empty());
                assert(acc@ + Seq::<char>::empty() =~= acc@);
            }
            acc
        },
        None => {
            proof {
                assert(parts_text(Seq::<JsonModel>::empty()) =~= Seq::<char>::empty());
            }
            acc
        },
    }
}

/// The model sequence of an executable parts array.
spec fn parts_model(parr: &Vec<JsonValue>) -> Seq<JsonModel> {
    Seq::new(parr@.len(), |j: int| parr@[j]@)
}

/// Re-frame a Gemini SSE body into Responses-style events.
#[verifier::loop_isolation(false)]
#[verifier::rlimit(80)]
pub fn convert_gemini_stream_body(body: &[u8]) -> (r: Vec<u8>)
    ensures
        r@ == encode_utf8(gem_stream_text_spec(body@)),
{
    let lines = split_body_lines(body);
    let ghost lm = lines.deep_view();
    let mut text = String::new();
    let mut any = false;
    let mut created = false;
    let ghost mut outs: Seq<Seq<char>> = Seq::empty();
    let mut i: usize = 0;
    proof {
        assert(lm.skip(0) =~= lm);
        assert(outs + gem_out_lines(lm.skip(0), false) =~= gem_out_lines(lm, false));
        assert(join_lines(outs) =~= text@);
    }
    while i < lines.len()
        invariant
            i <= lines@.len(),
            lines.deep_view() == lm,
            lm.len() == lines@.len(),
            forall|j: int| 0 <= j < lines@.len() ==> lm[j] == (#[trigger] lines@[j])@,
            outs + gem_out_lines(lm.skip(i as int), created) == gem_out_lines(lm, false),
            text@ == join_lines(outs),
            any == (outs.len() > 0),
        decreases lines@.len() - i,
    {
        proof {
            assert(lm.skip(i as int)[0] == lm[i as int]);
            assert(lm.skip(i as int).skip(1) =~= lm.skip(i + 1));
        }
        let (new_lines, new_created) = gem_process_line(&lines[i], created);
        let ghost nl = new_lines.deep_view();
        let mut k: usize = 0;
        proof {
            assert(nl.take(0) =~= Seq::<Seq<char>>::empty());
            assert(outs + nl.take(0) =~= outs);
        }
        let ghost outs0 = outs;
        while k < new_lines.len()
            invariant
                k <= new_lines@.len(),
                new_lines.deep_view() == nl,
                nl.len() == new_lines@.len(),
                forall|j: int| 0 <= j < new_lines@.len() ==> nl[j] == (#[trigger] new_lines@[j])@,
                outs == outs0 + nl.take(k as int),
                text@ == join_lines(outs),
                any == (outs.len() > 0),
            decreases new_lines@.len() - k,
        {
            let l = &new_lines[k];
            let ghost outs_pre = outs;
            proof {
                outs = outs.push(l@);
                assert(outs.drop_last() =~= outs_pre);
            }
            if any {
                text.append("\n\n");
                text.append(l.as_str());
            } else {
                text.append(l.as_str());
                any = true;
            }
            proof {
                assert(outs =~= outs0 + nl.take(k + 1));
            }
            k += 1;
        }
        proof {
            assert(nl.take(nl.len() as int) =~= nl);
            assert(outs =~= outs0 + nl);
            assert(outs0 + gem_line_out(lm[i as int], created) + gem_out_lines(
                lm.skip(i + 1),
                gem_created_after(lm[i as int], created),
            ) =~= outs0 + gem_out_lines(lm.skip(i as int), created));
        }
        created = new_created;
        i += 1;
    }
    proof {
        assert(gem_out_lines(lm.skip(lm.len() as int), created) =~= Seq::<Seq<char>>::empty());
        assert(outs + Seq::<Seq<char>>::empty() =~= outs);
    }
    text.as_str().as_bytes_vec()
}

/// Reconstruct the caller's Responses envelope from a Gemini response: a
/// non-streaming response passes through untouched (`None`), a streaming
/// body is re-framed event by event.
pub fn convert_gemini_to_responses_format(body: &[u8], is_streaming: bool) -> (r: Option<
    TranscodedResponse,
>)
    ensures
        if is_streaming {
            match r {
                Some(t) => {
                    &&& t.status == 200
                    &&& t.headers.deep_view() == seq![
                        ("content-type"@, "text/event-stream"@),
                        ("cache-control"@, "no-cache"@),
                        ("connection"@, "keep-alive"@),
                    ]
                    &&& t.body@ == encode_utf8(gem_stream_text_spec(body@))
                },
                None => false,
            }
        } else {
            r is None
        },
{
    if !is_streaming {
        return None;
    }
    let out_body = convert_gemini_stream_body(body);
    let headers: Vec<(String, String)> = vec![
        ("content-type".to_owned(), "text/event-stream".to_owned()),
        ("cache-control".to_owned(), "no-cache".to_owned()),
        ("connection".to_owned(), "keep-alive".to_owned()),
    ];
    proof {
        assert(headers.deep_view() =~= seq![
            ("content-type"@, "text/event-stream"@),
            ("cache-control"@, "no-cache"@),
            ("connection"@, "keep-alive"@),
        ]);
    }
    Some(TranscodedResponse { status: 200, headers, body: out_body })
}

} // verus!
