//! Response transcoding: one of four output modes per route.
//!
//! Json buffers and strictly parses the upstream body, re-emitting it as
//! JSON, and falls back to `text/plain` with the original status when the
//! body is not JSON — upstream error text must not be swallowed. Html
//! forces `text/html` and hands the body text through. Stream relays bytes
//! untouched when the upstream content type marks an event stream, else it
//! is buffered like an ordinary payload; hop-specific headers never leak.
//! Sse re-frames events through the incremental framer.

use vstd::prelude::*;

use crate::config::EndpointConfig;
use crate::headers::{apply_customs_spec, apply_overwrites, forward_headers, forwarded_spec, header_idx};
use crate::json::{json_parse, json_parse_spec, json_text_spec, json_to_string, bytes_to_string_lossy, lossy_utf8};
use crate::text::{contains_sub_spec, starts_with_spec, str_contains, str_starts_with};
use vstd::utf8::encode_utf8;

verus! {

/// A fully transcoded buffered response: status, final headers, body.
pub struct TranscodedResponse {
    pub status: u16,
    pub headers: Vec<(String, String)>,
    pub body: Vec<u8>,
}

/// The headers of a buffered mode: a forced content type, then the
/// forwarded subset applied on top (last write wins).
pub open spec fn buffered_headers_spec(
    content_type: Seq<char>,
    route: EndpointConfig,
    upstream: Seq<(Seq<char>, Seq<char>)>,
) -> Seq<(Seq<char>, Seq<char>)> {
    apply_customs_spec(
        seq![("content-type"@, content_type)],
        forwarded_spec(route.forward_response_headers.deep_view(), upstream),
    )
}

/// Build the header list of a buffered mode.
fn buffered_headers(
    content_type: &str,
    route: &EndpointConfig,
    upstream: &Vec<(String, String)>,
) -> (r: Vec<(String, String)>)
    ensures
        r.deep_view() == buffered_headers_spec(content_type@, *route, upstream.deep_view()),
{
    let fwd = forward_headers(&route.forward_response_headers, upstream);
    let mut base: Vec<(String, String)> = vec![("content-type".to_owned(), content_type.to_owned())];
    proof {
        assert(base.deep_view() =~= seq![("content-type"@, content_type@)]);
    }
    apply_overwrites(&mut base, &fwd);
    base
}

/// The Json mode: strict parse and re-emit, or the `text/plain` fallback
/// with the upstream status preserved.
pub fn transcode_json(
    status: u16,
    upstream_headers: &Vec<(String, String)>,
    body: &[u8],
    route: &EndpointConfig,
) -> (r: TranscodedResponse)
    ensures
        r.status == status,
        match json_parse_spec(body@) {
            Some(v) => {
                &&& r.headers.deep_view() == buffered_headers_spec(
                    "application/json"@,
                    *route,
                    upstream_headers.deep_view(),
                )
                &&& r.body@ == encode_utf8(json_text_spec(v))
            },
            None => {
                &&& r.headers.deep_view() == buffered_headers_spec(
                    "text/plain; charset=utf-8"@,
                    *route,
                    upstream_headers.deep_view(),
                )
                &&& r.body@ == body@
            },
        },
{
    match json_parse(body) {
        Some(v) => {
            let text = json_to_string(&v);
            let out_body = text.as_str().as_bytes_vec();
            let headers = buffered_headers("application/json", route, upstream_headers);
            TranscodedResponse { status, headers, body: out_body }
        },
        None => {
            let headers = buffered_headers("text/plain; charset=utf-8", route, upstream_headers);
            let mut out_body: Vec<u8> = Vec::new();
            out_body.extend_from_slice(body);
            proof {
                assert(out_body@ =~= body@);
            }
            TranscodedResponse { status, headers, body: out_body }
        },
    }
}

/// The Html mode: the body text re-emitted under a forced `text/html`
/// content type, forwarded headers applied afterwards.
pub fn transcode_html(
    status: u16,
    upstream_headers: &Vec<(String, String)>,
    body: &[u8],
    route: &EndpointConfig,
) -> (r: TranscodedResponse)
    ensures
        r.status == status,
        r.headers.deep_view() == buffered_headers_spec(
            "text/html"@,
            *route,
            upstream_headers.deep_view(),
        ),
        r.body@ == encode_utf8(lossy_utf8(body@)),
{
    let text = bytes_to_string_lossy(body);
    let out_body = text.as_str().as_bytes_vec();
    let headers = buffered_headers("text/html", route, upstream_headers);
    TranscodedResponse { status, headers, body: out_body }
}

/// Whether an upstream content type marks a true byte stream: it mentions
/// `text/event-stream` or `application/stream`.
pub open spec fn streaming_content_type(ct: Option<Seq<char>>) -> bool {
    match ct {
        Some(c) => contains_sub_spec(c, "text/event-stream"@) || contains_sub_spec(
            c,
            "application/stream"@,
        ),
        None => false,
    }
}

/// Decide pass-through streaming from the upstream content type.
pub fn stream_is_passthrough(content_type: Option<&String>) -> (r: bool)
    ensures
        r == streaming_content_type(match content_type {
            Some(c) => Some(c@),
            None => None,
        }),
{
    match content_type {
        Some(c) => str_contains(c.as_str(), "text/event-stream") || str_contains(
            c.as_str(),
            "application/stream",
        ),
        None => false,
    }
}

/// A header name a Stream route must not forward: hop-specific names
/// starting with `connection` or `transfer-encoding`.
pub open spec fn hop_specific(name: Seq<char>) -> bool {
    starts_with_spec(name, "connection"@) || starts_with_spec(name, "transfer-encoding"@)
}

/// The forwarded subset of a Stream route: like [`forwarded_spec`] but with
/// hop-specific names dropped.
pub open spec fn forwarded_stream_spec(
    names: Seq<Seq<char>>,
    upstream: Seq<(Seq<char>, Seq<char>)>,
) -> Seq<(Seq<char>, Seq<char>)>
    decreases names.len(),
{
    if names.len() == 0 {
        Seq::empty()
    } else {
        let rest = forwarded_stream_spec(names.skip(1), upstream);
        let x = header_idx(upstream, names[0]);
        if x == -1 || hop_specific(names[0]) {
            rest
        } else {
            seq![(names[0], upstream[x].1)] + rest
        }
    }
}

/// The headers a Stream route forwards: the configured subset, with
/// `connection` and `transfer-encoding` style names filtered out.
pub fn select_stream_headers(
    route: &EndpointConfig,
    upstream: &Vec<(String, String)>,
) -> (r: Vec<(String, String)>)
    ensures
        r.deep_view() == forwarded_stream_spec(
            route.forward_response_headers.deep_view(),
            upstream.deep_view(),
        ),
{
    let names = &route.forward_response_headers;
    let ghost nsv = names.deep_view();
    let ghost upv = upstream.deep_view();
    let mut out: Vec<(String, String)> = Vec::new();
    let mut i: usize = 0;
    proof {
        assert(nsv.skip(0) =~= nsv);
        assert(out.deep_view() + forwarded_stream_spec(nsv.skip(0), upv) =~= forwarded_stream_spec(
            nsv,
            upv,
        ));
    }
    while i < names.len()
        invariant
            i <= names@.len(),
            names.deep_view() == nsv,
            upstream.deep_view() == upv,
            nsv.len() == names@.len(),
            forall|j: int| 0 <= j < names@.len() ==> nsv[j] == (#[trigger] names@[j])@,
            out.deep_view() + forwarded_stream_spec(nsv.skip(i as int), upv)
                == forwarded_stream_spec(nsv, upv),
        decreases names@.len() - i,
    {
        proof {
            assert(nsv.skip(i as int)[0] == nsv[i as int]);
            assert(nsv.skip(i as int).skip(1) =~= nsv.skip(i + 1));
        }
        let ghost out0 = out.deep_view();
        let hop = str_starts_with(names[i].as_str(), "connection") || str_starts_with(
            names[i].as_str(),
            "transfer-encoding",
        );
        if !hop {
            match crate::headers::find_header(upstream, names[i].as_str()) {
                Some(v) => {
                    out.push((names[i].clone(), v.clone()));
                    proof {
                        let x = header_idx(upv, nsv[i as int]);
                        assert(out.deep_view() =~= out0.push((nsv[i as int], upv[x].1)));
                        assert(out0.push((nsv[i as int], upv[x].1)) + forwarded_stream_spec(
                            nsv.skip(i + 1),
                            upv,
                        ) =~= out0 + forwarded_stream_spec(nsv.skip(i as int), upv));
                    }
                },
                None => {},
            }
        }
        i += 1;
    }
    proof {
        assert(nsv.skip(nsv.len() as int) =~= Seq::<Seq<char>>::empty());
        assert(out.deep_view() + forwarded_stream_spec(Seq::empty(), upv) =~= out.deep_view());
    }
    out
}

/// The headers an Sse route forwards: the configured subset verbatim.
pub fn select_sse_headers(
    route: &EndpointConfig,
    upstream: &Vec<(String, String)>,
) -> (r: Vec<(String, String)>)
    ensures
        r.deep_view() == forwarded_spec(
            route.forward_response_headers.deep_view(),
            upstream.deep_view(),
        ),
{
    forward_headers(&route.forward_response_headers, upstream)
}

} // verus!
