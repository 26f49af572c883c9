//! The proxy handler's decision logic: admit a request onto a client's
//! queue with a fresh request id and reply slot, and render the eventual
//! outcome as an HTTP response.
//!
//! The bounded wait between the two halves is the caller's: whatever the
//! wait yields is passed to `proxy_render`, which answers a gateway
//! timeout whenever no reply came through the slot.
use vstd::prelude::*;
use vstd::string::StringExecFns;
use crate::error::HttpError;
use crate::messages::{RelayMessage, RelayMessageView, headers_view, opt_view};
use crate::state::AppState;
use crate::text::{ascii_bytes, ascii_lower, ascii_lower_char};
use crate::util::{generate_id, id_char};
use crate::{FANOUT_CAPACITY, REQUEST_ID_LEN};

verus! {

/// A rendered HTTP response: what the framework layer sends back.
pub struct ProxyResponse {
    pub status: u16,
    pub headers: Vec<(String, String)>,
    pub body: Vec<u8>,
    pub set_cookie: Option<String>,
}

impl ProxyResponse {
    /// A response from its parts.
    pub fn new(set_cookie: Option<String>, status: u16, headers: Vec<(String, String)>, body: Vec<
        u8,
    >) -> (r: ProxyResponse)
        ensures
            r.set_cookie == set_cookie,
            r.status == status,
            r.headers == headers,
            r.body == body,
    {
        ProxyResponse { status, headers, body, set_cookie }
    }
}

/// The client-id cookie the proxy handler pins on its responses.
pub open spec fn cookie_text(id: Seq<char>) -> Seq<char> {
    "client_id="@ + id + "; Path=/; HttpOnly"@
}

/// Renders the client-id cookie.
pub fn cookie_value(client_id: &String) -> (r: String)
    ensures
        r@ == cookie_text(client_id@),
{
    String::from_str("client_id=").concat(client_id.as_str()).concat("; Path=/; HttpOnly")
}

/// The body answered for a request naming no live client.
pub open spec fn unknown_client_text(id: Seq<char>) -> Seq<char> {
    "Client id is unknown: "@ + id
}

/// The error answered for a request naming no live client.
pub fn unknown_client_error(client_id: &String) -> (r: HttpError)
    ensures
        r.spec_status() == 400,
        r.spec_message() == unknown_client_text(client_id@),
{
    HttpError::BadRequest(String::from_str("Client id is unknown: ").concat(client_id.as_str()))
}

/// Whether a header name is `content-length`, whatever its case.
fn is_content_length(s: &String) -> (r: bool)
    ensures
        r == (ascii_lower(s@) == "content-length"@),
{
    proof {
        reveal_strlit("content-length");
    }
    let n = s.as_str().unicode_len();
    if n != 14 {
        proof {
            assert(ascii_lower(s@).len() == s@.len());
        }
        return false;
    }
    let mut i: usize = 0;
    while i < 14
        invariant
            i <= 14,
            s@.len() == 14,
            forall|j: int| 0 <= j < i ==> ascii_lower(s@)[j] == "content-length"@[j],
        decreases 14 - i,
    {
        proof {
            reveal_strlit("content-length");
            assert("content-length"@.len() == 14);
        }
        let c = s.as_str().get_char(i);
        let lc = if 'A' <= c && c <= 'Z' {
            ((c as u8) + 32) as char
        } else {
            c
        };
        let tc = "content-length".get_char(i);
        if lc != tc {
            proof {
                assert(c == s@[i as int]);
                assert(lc == ascii_lower_char(s@[i as int]));
                assert(ascii_lower(s@)[i as int] != "content-length"@[i as int]);
            }
            return false;
        }
        i = i + 1;
    }
    proof {
        assert(ascii_lower(s@) =~= "content-length"@);
    }
    true
}

/// Drops every `content-length` header, whatever its case; everything
/// else passes through in order.
fn strip_content_length(headers: Vec<(String, String)>) -> (r: Vec<(String, String)>)
    ensures
        headers_view(r@) == headers_view(headers@).filter(
            |p: (Seq<char>, Seq<char>)| ascii_lower(p.0) != "content-length"@,
        ),
{
    let ghost pred = |p: (Seq<char>, Seq<char>)| ascii_lower(p.0) != "content-length"@;
    let ghost hv = headers_view(headers@);
    let mut out: Vec<(String, String)> = Vec::new();
    proof {
        reveal_with_fuel(Seq::<_>::filter, 2);
        assert(headers_view(out@) =~= hv.take(0).filter(pred));
    }
    let mut i: usize = 0;
    while i < headers.len()
        invariant
            i <= headers@.len(),
            hv == headers_view(headers@),
            hv.len() == headers@.len(),
            headers_view(out@) == hv.take(i as int).filter(
                |p: (Seq<char>, Seq<char>)| ascii_lower(p.0) != "content-length"@,
            ),
        decreases headers@.len() - i,
    {
        let ghost before = out@;
        proof {
            reveal_with_fuel(Seq::<_>::filter, 2);
            assert(hv.take(i as int + 1).drop_last() =~= hv.take(i as int));
            assert(hv.take(i as int + 1).last() == hv[i as int]);
            assert(hv[i as int] == (headers@[i as int].0@, headers@[i as int].1@));
        }
        let p = &headers[i];
        if !is_content_length(&p.0) {
            out.push((p.0.clone(), p.1.clone()));
            proof {
                assert(headers_view(out@) =~= headers_view(before).push((p.0@, p.1@)));
            }
        }
        i = i + 1;
    }
    proof {
        assert(hv.take(headers@.len() as int) =~= hv);
    }
    out
}

/// Admits an external request for a client: mints the request id, queues
/// the `ProxyRequest` frame (dropping it only when the agent is not
/// draining), and files the reply slot. A request naming no live client is
/// refused and touches nothing.
pub fn proxy_accept<S>(
    state: &mut AppState<S>,
    client_id: &String,
    path: Option<String>,
    query: Option<String>,
    method: String,
    headers: Vec<(String, String)>,
    body: Vec<u8>,
    tx: S,
) -> (r: Result<String, HttpError>)
    requires
        old(state).wf(),
    ensures
        final(state).wf(),
        final(state).token_view() == old(state).token_view(),
        final(state).proxy_timeout_view() == old(state).proxy_timeout_view(),
        final(state).ping_interval_view() == old(state).ping_interval_view(),
        final(state).client_ttl_view() == old(state).client_ttl_view(),
        r is Err <==> !old(state).clients_view().contains_key(client_id@),
        r matches Err(e) ==> {
            &&& e.spec_status() == 400
            &&& e.spec_message() == unknown_client_text(client_id@)
            &&& final(state).clients_view() == old(state).clients_view()
            &&& final(state).pending_view() == old(state).pending_view()
        },
        r matches Ok(rid) ==> {
            &&& rid@.len() == REQUEST_ID_LEN
            &&& (forall|i: int| 0 <= i < rid@.len() ==> id_char(#[trigger] rid@[i]))
            &&& final(state).pending_view() == old(state).pending_view().insert(rid@, tx)
            &&& final(state).clients_view().dom() == old(state).clients_view().dom()
            &&& final(state).clients_view()[client_id@].expires_at_ms == old(state).clients_view()[client_id@].expires_at_ms
            &&& (forall|k: Seq<char>|
                k != client_id@ && old(state).clients_view().contains_key(k) ==> final(state).clients_view()[k] == old(state).clients_view()[k])
            &&& {
                let q0 = old(state).clients_view()[client_id@].queue@;
                let sent = RelayMessageView::ProxyRequest {
                    request_id: rid@,
                    method: method@,
                    headers: headers_view(headers@),
                    body: body@,
                    path: opt_view(path),
                    query: opt_view(query),
                };
                if q0.len() < FANOUT_CAPACITY {
                    final(state).clients_view()[client_id@].queue@ == q0.push(sent)
                } else {
                    final(state).clients_view()[client_id@].queue@ == q0
                }
            }
        },
{
    let request_id = generate_id(REQUEST_ID_LEN);
    let known = match state.get_client(client_id) {
        Some(_) => true,
        None => false,
    };
    if !known {
        return Err(unknown_client_error(client_id));
    }
    let msg = RelayMessage::ProxyRequest {
        request_id: request_id.clone(),
        method,
        headers,
        body,
        path,
        query,
    };
    let _ = state.publish(client_id, msg);
    state.add_proxy_request(&request_id, tx);
    Ok(request_id)
}

/// A rendered gateway timeout.
pub open spec fn rendered_timeout(r: ProxyResponse) -> bool {
    &&& r.status == 504
    &&& r.body@ == ascii_bytes("Timeout"@)
    &&& r.headers@.len() == 0
}

/// Renders what the bounded wait yielded. A `ProxyResponse` reply copies
/// its status and body and passes its headers through with every
/// `content-length` dropped; anything else — the wait timed out, the slot
/// closed, or a frame of another variant came through — renders the
/// gateway timeout. Either way the response pins the client-id cookie.
pub fn proxy_render(client_id: &String, reply: Option<RelayMessage>) -> (r: ProxyResponse)
    ensures
        r.set_cookie matches Some(c) && c@ == cookie_text(client_id@),
        forall|i: int|
            0 <= i < r.headers@.len() ==> ascii_lower((#[trigger] r.headers@[i]).0@)
                != "content-length"@,
        match reply {
            Some(m) => match m {
                RelayMessage::ProxyResponse { request_id: _, headers, body, status } => {
                    &&& r.status == status
                    &&& r.body@ == body@
                    &&& headers_view(r.headers@) == headers_view(headers@).filter(
                        |p: (Seq<char>, Seq<char>)| ascii_lower(p.0) != "content-length"@,
                    )
                },
                _ => rendered_timeout(r),
            },
            None => rendered_timeout(r),
        },
{
    let cookie = cookie_value(client_id);
    match reply {
        Some(RelayMessage::ProxyResponse { request_id: _, headers, body, status }) => {
            let kept = strip_content_length(headers);
            proof {
                assert forall|i: int| 0 <= i < kept@.len() implies (ascii_lower(
                    (#[trigger] kept@[i]).0@,
                ) != "content-length"@) by {
                    let fv = headers_view(kept@);
                    assert(fv[i] == (kept@[i].0@, kept@[i].1@));
                }
            }
            ProxyResponse { status, headers: kept, body, set_cookie: Some(cookie) }
        },
        _ => {
            proof {
                reveal_strlit("Timeout");
            }
            let body = "Timeout".as_bytes_vec();
            proof {
                assert("Timeout".is_ascii());
                vstd::utf8::is_ascii_chars_encode_utf8("Timeout"@);
                assert(body@ =~= ascii_bytes("Timeout"@));
            }
            ProxyResponse { status: 504, headers: Vec::new(), body, set_cookie: Some(cookie) }
        },
    }
}

} // verus!
