//! A verified core for an HTTP reverse proxy that fronts several
//! large-language-model provider APIs: declarative route configuration,
//! header-forwarding policy, Server-Sent-Events re-framing, response
//! transcoding, and bidirectional protocol conversion between the OpenAI
//! "Responses" envelope and the Chat-Completions / Google Gemini wire formats.
//!
//! Transport (the HTTP server and client) lives outside this crate; the
//! library holds the decisions: which route matches, what the outbound
//! request looks like, how each upstream body is rewritten.

use vstd::prelude::*;

pub mod config;
pub mod convert_chat;
pub mod convert_gemini;
pub mod dispatch;
pub mod error;
pub mod headers;
pub mod json;
pub mod sse;
pub mod text;
pub mod thread_data;
pub mod transcode;

verus! {

/// The fixed service credential attached to the special relay route.
///
/// The credential is handed in once at startup (dependency injection); the
/// library never reads process state for it.
pub struct ServiceCredential {
    pub key: String,
}

/// The bearer key for the relay route.
pub fn get_amp_api_key(cred: &ServiceCredential) -> (r: &String)
    ensures
        r@ == cred.key@,
{
    &cred.key
}

/// What request planning made of one inbound call: the (possibly
/// rewritten) route, the (possibly converted) body, whether a protocol
/// conversion fired, and whether the original request declared streaming —
/// the response side must know the caller's intent.
pub struct RequestConversion {
    pub config: config::EndpointConfig,
    pub body: Vec<u8>,
    pub converted: bool,
    pub streaming: bool,
}

} // verus!
