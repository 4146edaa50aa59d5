//! Per-request orchestration decisions.
//!
//! A request runs through: match route → convert request (at most one
//! converter wins) → forward → transcode response → convert response back.
//! The forwarding itself is transport; everything decided here — which
//! converter fires, what the outbound route and body are, what the caller
//! gets back — is stated exactly.

use vstd::prelude::*;

use crate::config::EndpointConfig;
use crate::convert_chat::{
    cc_request_spec, cc_stream_text_spec, convert_chat_completions_to_responses_format,
    declared_streaming, handle_o3_model_conversion, o3_applies, same_route_policy,
};
use crate::convert_gemini::{
    convert_gemini_to_responses_format, gem_path, gem_request_spec, gem_stream_text_spec,
    gem_target_url, gemini_applies, handle_google_responses_conversion,
};
use crate::error::ProxyError;
use crate::json::{json_parse_spec, json_text_spec, obj_get};
use crate::text::replace_all_spec;
use crate::transcode::TranscodedResponse;
use vstd::utf8::encode_utf8;

verus! {

/// Which protocol converter fired for a request.
#[derive(Clone, Copy, Debug, PartialEq, Eq, Structural)]
pub enum ConversionKind {
    NoConversion,
    ChatCompletions,
    Gemini,
}

/// The outbound plan of one inbound request.
pub struct RequestPlan {
    pub config: EndpointConfig,
    pub body: Vec<u8>,
    pub kind: ConversionKind,
    pub streaming: bool,
}

/// What the o3 stage makes of `(path, target, body)`: the rewritten
/// values, whether it fired, and the declared streaming flag.
pub open spec fn o3_stage(path: Seq<char>, target: Seq<char>, body: Seq<u8>) -> (
    Seq<char>,
    Seq<char>,
    Seq<u8>,
    bool,
    bool,
) {
    if o3_applies(path, json_parse_spec(body)) {
        let req = json_parse_spec(body)->0;
        (
            replace_all_spec(path, "/v1/responses"@, "/v1/chat/completions"@),
            replace_all_spec(target, "/v1/responses"@, "/v1/chat/completions"@),
            encode_utf8(json_text_spec(cc_request_spec(req))),
            true,
            declared_streaming(req),
        )
    } else {
        (path, target, body, false, false)
    }
}

/// What the Gemini stage makes of `(path, target, body)`.
pub open spec fn gem_stage(path: Seq<char>, target: Seq<char>, body: Seq<u8>) -> (
    Seq<char>,
    Seq<char>,
    Seq<u8>,
    bool,
    bool,
) {
    if gemini_applies(path, json_parse_spec(body)) {
        let req = json_parse_spec(body)->0;
        let model = obj_get(req, "model"@)->0->Str_0;
        let streaming = declared_streaming(req);
        (
            gem_path(model, streaming),
            gem_target_url(target, model, streaming),
            encode_utf8(json_text_spec(gem_request_spec(req))),
            true,
            streaming,
        )
    } else {
        (path, target, body, false, false)
    }
}

/// Plan one inbound request: run the o3 stage, then the Gemini stage on
/// its outcome; the first converter that fired decides the kind and the
/// streaming flag.
pub fn plan_request(config: EndpointConfig, body: &[u8]) -> (r: RequestPlan)
    ensures
        same_route_policy(r.config, config),
        ({
            let s1 = o3_stage(config.path@, config.target_url@, body@);
            let s2 = gem_stage(s1.0, s1.1, s1.2);
            &&& r.config.path@ == s2.0
            &&& r.config.target_url@ == s2.1
            &&& r.body@ == s2.2
            &&& r.kind == if s1.3 {
                ConversionKind::ChatCompletions
            } else if s2.3 {
                ConversionKind::Gemini
            } else {
                ConversionKind::NoConversion
            }
            &&& r.streaming == if s1.3 {
                s1.4
            } else if s2.3 {
                s2.4
            } else {
                false
            }
        }),
{
    let r1 = handle_o3_model_conversion(config, body);
    let was_o3 = r1.converted;
    let o3_streaming = r1.streaming;
    let r2 = handle_google_responses_conversion(r1.config, r1.body.as_slice());
    let kind = if was_o3 {
        ConversionKind::ChatCompletions
    } else if r2.converted {
        ConversionKind::Gemini
    } else {
        ConversionKind::NoConversion
    };
    let streaming = if was_o3 {
        o3_streaming
    } else if r2.converted {
        r2.streaming
    } else {
        false
    };
    RequestPlan { config: r2.config, body: r2.body, kind, streaming }
}

/// Whether an upstream status is a success; anything else surfaces as a
/// single bad-gateway failure whose body never reaches the caller.
pub fn check_upstream_status(status: u16) -> (r: Result<(), ProxyError>)
    ensures
        r is Ok <==> 200 <= status < 300,
        match r {
            Ok(_) => true,
            Err(e) => match e {
                ProxyError::UpstreamError(s, m) => s == 502 && m@ == "Upstream server error"@,
                _ => false,
            },
        },
{
    if 200 <= status && status < 300 {
        Ok(())
    } else {
        Err(ProxyError::UpstreamError(502, "Upstream server error".to_owned()))
    }
}

/// Run the reverse conversion that mirrors whichever converter fired: the
/// o3 kind re-frames (or re-serializes) the upstream body, the Gemini kind
/// re-frames only streaming bodies, and no conversion leaves the response
/// untouched.
pub fn convert_response_after(kind: ConversionKind, streaming: bool, t: TranscodedResponse) -> (r:
    Result<TranscodedResponse, ProxyError>)
    ensures
        match kind {
            ConversionKind::ChatCompletions => {
                if streaming {
                    match r {
                        Ok(out) => {
                            &&& out.status == 200
                            &&& out.body@ == encode_utf8(cc_stream_text_spec(t.body@))
                        },
                        Err(_) => false,
                    }
                } else {
                    match json_parse_spec(t.body@) {
                        Some(v) => match r {
                            Ok(out) => out.status == 200 && out.body@ == encode_utf8(
                                json_text_spec(v),
                            ),
                            Err(_) => false,
                        },
                        None => r matches Err(ProxyError::ConversionError(_)),
                    }
                }
            },
            ConversionKind::Gemini => {
                if streaming {
                    match r {
                        Ok(out) => out.status == 200 && out.body@ == encode_utf8(
                            gem_stream_text_spec(t.body@),
                        ),
                        Err(_) => false,
                    }
                } else {
                    match r {
                        Ok(out) => out == t,
                        Err(_) => false,
                    }
                }
            },
            ConversionKind::NoConversion => match r {
                Ok(out) => out == t,
                Err(_) => false,
            },
        },
{
    match kind {
        ConversionKind::ChatCompletions => convert_chat_completions_to_responses_format(
            t.body.as_slice(),
            streaming,
        ),
        ConversionKind::Gemini => {
            match convert_gemini_to_responses_format(t.body.as_slice(), streaming) {
                Some(out) => Ok(out),
                None => Ok(t),
            }
        },
        ConversionKind::NoConversion => Ok(t),
    }
}

} // verus!
