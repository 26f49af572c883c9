//! The tagged wire record exchanged between the server and a tunnel agent,
//! together with its mathematical view and well-formedness.
//!
//! Header lists stand in for string-to-string mappings: names keep the case
//! in which they arrived and the order of receipt is preserved.
use vstd::prelude::*;
use vstd::utf8::is_ascii_chars;

verus! {

/// A relay frame: the four wire variants of the tunnel protocol.
#[derive(Debug, Clone)]
pub enum RelayMessage {
    /// Fire-and-forget delivery of an external request to the agent.
    Webhook { method: String, headers: Vec<(String, String)>, body: Vec<u8> },
    /// The minted client id, sent once as the first frame after upgrade.
    ClientId(String),
    /// A proxied external request awaiting the agent's reply.
    ProxyRequest {
        request_id: String,
        method: String,
        headers: Vec<(String, String)>,
        body: Vec<u8>,
        path: Option<String>,
        query: Option<String>,
    },
    /// The agent's reply to a `ProxyRequest` with the same request id.
    ProxyResponse { request_id: String, headers: Vec<(String, String)>, body: Vec<u8>, status: u16 },
}

/// The mathematical value of a relay frame: every text field a sequence of
/// characters, every binary field a sequence of bytes.
pub enum RelayMessageView {
    Webhook { method: Seq<char>, headers: Seq<(Seq<char>, Seq<char>)>, body: Seq<u8> },
    ClientId(Seq<char>),
    ProxyRequest {
        request_id: Seq<char>,
        method: Seq<char>,
        headers: Seq<(Seq<char>, Seq<char>)>,
        body: Seq<u8>,
        path: Option<Seq<char>>,
        query: Option<Seq<char>>,
    },
    ProxyResponse {
        request_id: Seq<char>,
        headers: Seq<(Seq<char>, Seq<char>)>,
        body: Seq<u8>,
        status: u16,
    },
}

/// The view of a header list: each pair of strings becomes a pair of
/// character sequences, in the same order.
pub open spec fn headers_view(h: Seq<(String, String)>) -> Seq<(Seq<char>, Seq<char>)> {
    h.map_values(|p: (String, String)| (p.0@, p.1@))
}

/// The view of an optional string field.
pub open spec fn opt_view(o: Option<String>) -> Option<Seq<char>> {
    match o {
        Some(s) => Some(s@),
        None => None,
    }
}

impl View for RelayMessage {
    type V = RelayMessageView;

    open spec fn view(&self) -> RelayMessageView {
        match self {
            RelayMessage::Webhook { method, headers, body } => RelayMessageView::Webhook {
                method: method@,
                headers: headers_view(headers@),
                body: body@,
            },
            RelayMessage::ClientId(id) => RelayMessageView::ClientId(id@),
            RelayMessage::ProxyRequest { request_id, method, headers, body, path, query } => {
                RelayMessageView::ProxyRequest {
                    request_id: request_id@,
                    method: method@,
                    headers: headers_view(headers@),
                    body: body@,
                    path: opt_view(*path),
                    query: opt_view(*query),
                }
            },
            RelayMessage::ProxyResponse { request_id, headers, body, status } => {
                RelayMessageView::ProxyResponse {
                    request_id: request_id@,
                    headers: headers_view(headers@),
                    body: body@,
                    status: *status,
                }
            },
        }
    }
}

impl DeepView for RelayMessage {
    type V = RelayMessageView;

    open spec fn deep_view(&self) -> RelayMessageView {
        self.view()
    }
}

/// A text field the wire format can carry: ASCII characters, length below
/// the four-byte prefix bound.
pub open spec fn wf_text(s: Seq<char>) -> bool {
    &&& is_ascii_chars(s)
    &&& s.len() < 0x100000000
}

/// A binary field the wire format can carry.
pub open spec fn wf_bytes(b: Seq<u8>) -> bool {
    b.len() < 0x100000000
}

/// A header list the wire format can carry.
pub open spec fn wf_headers(h: Seq<(Seq<char>, Seq<char>)>) -> bool {
    &&& h.len() < 0x100000000
    &&& forall|i: int| 0 <= i < h.len() ==> wf_text((#[trigger] h[i]).0) && wf_text(h[i].1)
}

/// An optional text field the wire format can carry.
pub open spec fn wf_opt_text(o: Option<Seq<char>>) -> bool {
    match o {
        Some(s) => wf_text(s),
        None => true,
    }
}

/// A frame the wire format can carry: the external contract is text headers
/// and text control fields only, bodies are arbitrary bytes.
pub open spec fn wf_msg(v: RelayMessageView) -> bool {
    match v {
        RelayMessageView::Webhook { method, headers, body } => {
            &&& wf_text(method)
            &&& wf_headers(headers)
            &&& wf_bytes(body)
        },
        RelayMessageView::ClientId(id) => wf_text(id),
        RelayMessageView::ProxyRequest { request_id, method, headers, body, path, query } => {
            &&& wf_text(request_id)
            &&& wf_text(method)
            &&& wf_headers(headers)
            &&& wf_bytes(body)
            &&& wf_opt_text(path)
            &&& wf_opt_text(query)
        },
        RelayMessageView::ProxyResponse { request_id, headers, body, status: _ } => {
            &&& wf_text(request_id)
            &&& wf_headers(headers)
            &&& wf_bytes(body)
        },
    }
}

} // verus!
