//! The tunnel agent's decision logic: what to do with each frame the
//! server relays, and the derived URLs it announces.
//!
//! The agent's sockets and its local HTTP calls run outside the library;
//! they perform the action `handle_message` returns and hand the local
//! reply back to `build_proxy_response`.
use vstd::prelude::*;
use vstd::string::StringExecFns;
use crate::messages::{RelayMessage, RelayMessageView, headers_view, opt_view};

verus! {

/// The agent's command line, as plain values.
#[derive(Debug, Clone)]
pub struct Args {
    /// The relay server, as `host` or `host:port`.
    pub server: String,
    /// The connect token minted by the server.
    pub token: String,
    /// The local target URL requests are replayed against.
    pub target: String,
    /// Connect without TLS.
    pub insecure: bool,
    /// A CA certificate path, when the server's certificate is private.
    pub ca_cert: Option<String>,
}

/// Whether a command-line word asks for the version banner.
pub fn is_version_flag(s: &String) -> (r: bool)
    ensures
        r == (s@ == "-v"@ || s@ == "--version"@),
{
    let short = String::from_str("-v");
    let long = String::from_str("--version");
    s.eq(&short) || s.eq(&long)
}

/// The WebSocket URL the agent dials.
pub fn ws_url(insecure: bool, server: &String) -> (r: String)
    ensures
        r@ == (if insecure {
            "ws://"@
        } else {
            "wss://"@
        }) + server@ + "/connect"@,
{
    let proto = if insecure {
        "ws://"
    } else {
        "wss://"
    };
    String::from_str(proto).concat(server.as_str()).concat("/connect")
}

/// The webhook intake URL announced once the client id arrives.
pub fn webhook_url(client_id: &String, protocol: &str, server: &String) -> (r: String)
    ensures
        r@ == protocol@ + server@ + "/webhook/"@ + client_id@,
{
    String::from_str(protocol).concat(server.as_str()).concat("/webhook/").concat(
        client_id.as_str(),
    )
}

/// The proxy URL announced once the client id arrives.
pub fn proxy_url(client_id: &String, protocol: &str, server: &String) -> (r: String)
    ensures
        r@ == protocol@ + server@ + "/proxy/"@ + client_id@,
{
    String::from_str(protocol).concat(server.as_str()).concat("/proxy/").concat(
        client_id.as_str(),
    )
}

/// What the agent must do with one relayed frame.
pub enum AgentAction {
    /// Replay a webhook against the local target; nothing goes back.
    ForwardWebhook { method: String, headers: Vec<(String, String)>, body: Vec<u8> },
    /// Print the two public URLs the server now serves for this agent.
    Announce { webhook_url: String, proxy_url: String },
    /// Replay a proxied request against the local target and send the
    /// reply back under the same request id.
    PerformProxy {
        request_id: String,
        method: String,
        headers: Vec<(String, String)>,
        body: Vec<u8>,
        path: Option<String>,
    },
    /// A frame the agent does not act on.
    Ignore,
}

/// Decides one relayed frame: webhooks and proxied requests are replayed
/// locally, the client-id frame is announced, anything else is ignored.
pub fn handle_message(msg: RelayMessage, insecure: bool, server: &String) -> (r: AgentAction)
    ensures
        match msg {
            RelayMessage::Webhook { method, headers, body } => r
                matches AgentAction::ForwardWebhook { method: m2, headers: h2, body: b2 } && m2@
                == method@ && headers_view(h2@) == headers_view(headers@) && b2@ == body@,
            RelayMessage::ClientId(id) => {
                let proto = (if insecure {
                    "http://"@
                } else {
                    "https://"@
                });
                r matches AgentAction::Announce { webhook_url: w, proxy_url: p } && w@ == proto
                    + server@ + "/webhook/"@ + id@ && p@ == proto + server@ + "/proxy/"@ + id@
            },
            RelayMessage::ProxyRequest { request_id, method, headers, body, path, query: _ } => r
                matches AgentAction::PerformProxy {
                request_id: rid2,
                method: m2,
                headers: h2,
                body: b2,
                path: p2,
            } && rid2@ == request_id@ && m2@ == method@ && headers_view(h2@) == headers_view(
                headers@,
            ) && b2@ == body@ && opt_view(p2) == opt_view(path),
            RelayMessage::ProxyResponse { .. } => r is Ignore,
        },
{
    match msg {
        RelayMessage::Webhook { method, headers, body } => AgentAction::ForwardWebhook {
            method,
            headers,
            body,
        },
        RelayMessage::ClientId(id) => {
            let proto = if insecure {
                "http://"
            } else {
                "https://"
            };
            AgentAction::Announce {
                webhook_url: webhook_url(&id, proto, server),
                proxy_url: proxy_url(&id, proto, server),
            }
        },
        RelayMessage::ProxyRequest { request_id, method, headers, body, path, query: _ } => {
            AgentAction::PerformProxy { request_id, method, headers, body, path }
        },
        RelayMessage::ProxyResponse { .. } => AgentAction::Ignore,
    }
}

/// The local URL a relayed request is replayed against: the target, with
/// the relayed path spliced behind a slash when there is one.
pub fn build_target_url(target: &String, path: &Option<String>) -> (r: String)
    ensures
        match path {
            Some(p) => r@ == target@ + "/"@ + p@,
            None => r@ == target@,
        },
{
    match path {
        Some(p) => target.clone().concat("/").concat(p.as_str()),
        None => target.clone(),
    }
}

/// The reply frame for a replayed request, under its request id.
pub fn build_proxy_response(
    request_id: String,
    status: u16,
    headers: Vec<(String, String)>,
    body: Vec<u8>,
) -> (r: RelayMessage)
    ensures
        r@ == (RelayMessageView::ProxyResponse {
            request_id: request_id@,
            headers: headers_view(headers@),
            body: body@,
            status,
        }),
{
    RelayMessage::ProxyResponse { request_id, headers, body, status }
}

/// Whether a local reply's status is reported as an error by the agent.
pub fn status_indicates_error(status: u16) -> (r: bool)
    ensures
        r == (400 <= status && status < 600),
{
    400 <= status && status < 600
}

} // verus!
