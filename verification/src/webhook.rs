//! The webhook handler's decision logic: fire-and-forget delivery, no
//! reply slot, no wait.
use vstd::prelude::*;
use crate::error::HttpError;
use crate::messages::{RelayMessage, RelayMessageView, headers_view};
use crate::proxy::{unknown_client_error, unknown_client_text};
use crate::state::AppState;
use crate::FANOUT_CAPACITY;

verus! {

/// Delivers a webhook to a client's queue. A live client answers plain
/// success whether or not its queue had room (a full queue drops the
/// frame); a request naming no live client is refused and touches nothing.
pub fn webhook_handler<S>(
    state: &mut AppState<S>,
    client_id: &String,
    method: String,
    headers: Vec<(String, String)>,
    body: Vec<u8>,
) -> (r: Result<(), HttpError>)
    requires
        old(state).wf(),
    ensures
        final(state).wf(),
        final(state).pending_view() == old(state).pending_view(),
        final(state).token_view() == old(state).token_view(),
        final(state).proxy_timeout_view() == old(state).proxy_timeout_view(),
        final(state).ping_interval_view() == old(state).ping_interval_view(),
        final(state).client_ttl_view() == old(state).client_ttl_view(),
        r is Ok <==> old(state).clients_view().contains_key(client_id@),
        r matches Err(e) ==> {
            &&& e.spec_status() == 400
            &&& e.spec_message() == unknown_client_text(client_id@)
            &&& final(state).clients_view() == old(state).clients_view()
        },
        r is Ok ==> {
            &&& final(state).clients_view().dom() == old(state).clients_view().dom()
            &&& final(state).clients_view()[client_id@].expires_at_ms == old(state).clients_view()[client_id@].expires_at_ms
            &&& (forall|k: Seq<char>|
                k != client_id@ && old(state).clients_view().contains_key(k) ==> final(state).clients_view()[k] == old(state).clients_view()[k])
            &&& {
                let q0 = old(state).clients_view()[client_id@].queue@;
                let sent = RelayMessageView::Webhook {
                    method: method@,
                    headers: headers_view(headers@),
                    body: body@,
                };
                if q0.len() < FANOUT_CAPACITY {
                    final(state).clients_view()[client_id@].queue@ == q0.push(sent)
                } else {
                    final(state).clients_view()[client_id@].queue@ == q0
                }
            }
        },
{
    let known = match state.get_client(client_id) {
        Some(_) => true,
        None => false,
    };
    if !known {
        return Err(unknown_client_error(client_id));
    }
    let msg = RelayMessage::Webhook { method, headers, body };
    let _ = state.publish(client_id, msg);
    Ok(())
}

} // verus!
