//! What goes over the wire: the request for a batch of addresses and the
//! reply of the service, both as plain values. Sending is not done here.

use crate::details::Text;
use vstd::prelude::*;

verus! {

/// The version tag in the user agent.
pub const VERSION: &'static str = "0.1.0";

/// The method of every request.
pub const METHOD: &'static str = "POST";

/// Where the resolution service lives.
pub const BASE_URL: &'static str = "https://ipinfo.io";

/// Status by which the service says that the request quota is used up.
pub const TOO_MANY_REQUESTS: u16 = 429;

/// A request for the records of a batch of addresses: it goes to `url` by
/// `method`, with `token` as bearer token and the given headers, and its body
/// is the JSON array of the addresses.
#[derive(Debug)]
pub struct BatchRequest {
    pub method: String,
    pub url: String,
    pub token: String,
    pub headers: Vec<(String, String)>,
    pub addresses: Vec<String>,
}

/// The reply of the service: its status and its body.
#[derive(Debug)]
pub struct Reply {
    pub status: u16,
    pub body: String,
}

/// The texts that a sequence of strings holds, in order.
pub open spec fn texts_of(strings: Seq<String>) -> Seq<Text> {
    Seq::new(strings.len(), |i: int| strings[i]@)
}

/// Names and values of a sequence of headers, in order.
pub open spec fn header_texts(headers: Seq<(String, String)>) -> Seq<(Text, Text)> {
    Seq::new(headers.len(), |i: int| (headers[i].0@, headers[i].1@))
}

/// The headers of every request: who asks, and that JSON is sent and wanted.
pub open spec fn canonical_headers() -> Seq<(Text, Text)> {
    seq![
        ("user-agent"@, "IPinfoClient/Rust/"@ + VERSION@),
        ("content-type"@, "application/json"@),
        ("accept"@, "application/json"@),
    ]
}

/// The address of the batch endpoint of a service.
pub open spec fn batch_url(base: Text) -> Text {
    base + "/batch"@
}

/// The bearer token of a request: the configured one, or the empty string.
pub open spec fn bearer(token: Option<Text>) -> Text {
    match token {
        Some(t) => t,
        None => Seq::empty(),
    }
}

} // verus!
