//! One WebSocket session: connect-time auth, the per-session state
//! machine, and the routing of inbound frames.
//!
//! The event loop itself runs outside the library; it feeds every event
//! through `session_step` and performs the action that comes back, so the
//! lifecycle decisions are all here.
use vstd::prelude::*;
use vstd::string::StringExecFns;
use crate::codec::{dec_msg, enc_msg, decode_message, encode_message, lemma_msg_round_trip};
use crate::error::HttpError;
use crate::messages::{RelayMessage, RelayMessageView, wf_text};
use crate::state::AppState;
use crate::util::{generate_id, id_char};
use crate::CLIENT_ID_LEN;

verus! {

/// What the upgrade request carried in its `PRIVATE-TOKEN` header.
pub enum TokenHeader {
    /// No such header.
    Missing,
    /// A header whose value is not representable as text.
    NotText,
    /// The header's textual value.
    Text(String),
}

/// Decides an upgrade request: checks the connect token and mints the
/// session's client id.
pub fn connect_handler<S>(state: &AppState<S>, header: &TokenHeader) -> (r: Result<
    String,
    HttpError,
>)
    ensures
        match header {
            TokenHeader::Missing => r matches Err(e) && e.spec_status() == 401
                && e.spec_message() == "Connection token is missing from header"@,
            TokenHeader::NotText => r matches Err(e) && e.spec_status() == 400
                && e.spec_message() == "Connection token has invalid format"@,
            TokenHeader::Text(t) => {
                if t@ == state.token_view() {
                    r matches Ok(id) && id@.len() == CLIENT_ID_LEN && (forall|i: int|
                        0 <= i < id@.len() ==> id_char(#[trigger] id@[i]))
                } else {
                    r matches Err(e) && e.spec_status() == 401 && e.spec_message()
                        == "Connection token is invalid"@
                }
            },
        },
{
    match header {
        TokenHeader::Missing => Err(
            HttpError::Unauthorized(
                String::from_str("Connection token is missing from header"),
            ),
        ),
        TokenHeader::NotText => Err(
            HttpError::BadRequest(String::from_str("Connection token has invalid format")),
        ),
        TokenHeader::Text(t) => {
            if t.eq(state.connect_token()) {
                Ok(generate_id(CLIENT_ID_LEN))
            } else {
                Err(HttpError::Unauthorized(String::from_str("Connection token is invalid")))
            }
        },
    }
}

/// The ClientId frame: the first frame a session sends after upgrade.
pub fn first_frame(client_id: &String) -> (frame: Vec<u8>)
    requires
        wf_text(client_id@),
    ensures
        frame@ == enc_msg(RelayMessageView::ClientId(client_id@)),
{
    encode_message(&RelayMessage::ClientId(client_id.clone()))
}

/// Agent-id round-trip: the first frame a session sends after upgrade is
/// the ClientId frame, and on the agent's side it decodes to exactly the
/// id under which the registry holds the session once registration has
/// followed the send.
pub proof fn lemma_agent_id_round_trip(id: Seq<char>)
    requires
        wf_text(id),
    ensures
        dec_msg(enc_msg(RelayMessageView::ClientId(id))) == Some(RelayMessageView::ClientId(id)),
{
    lemma_msg_round_trip(RelayMessageView::ClientId(id));
}

/// Where a session stands.
#[derive(Debug, Clone, Copy, PartialEq, Eq, Structural)]
pub enum SessionState {
    /// Upgraded, the ClientId frame not yet delivered.
    Started,
    /// In the event loop.
    Active,
    /// Torn down; terminal.
    Closed,
}

/// What the event loop observed.
#[derive(Debug, Clone, Copy, PartialEq, Eq, Structural)]
pub enum SessionEvent {
    /// The ClientId frame was delivered.
    FirstFrameSent,
    /// The ClientId frame could not be delivered.
    FirstFrameSendFailed,
    /// The keepalive ticker fired.
    PingDue,
    /// A ping could not be delivered.
    PingSendFailed,
    /// The fan-out queue has a frame for the agent.
    OutboundFrameReady,
    /// A queued frame could not be delivered.
    OutboundSendFailed,
    /// A text frame arrived from the agent.
    InboundText,
    /// A close frame arrived from the agent.
    InboundClose,
    /// A non-text, non-close frame arrived from the agent.
    InboundOther,
    /// Reading or writing the socket failed.
    SocketError,
    /// The registry evicted this session's client id.
    Evicted,
}

/// What the event loop must do next.
#[derive(Debug, Clone, Copy, PartialEq, Eq, Structural)]
pub enum SessionAction {
    /// Register the client id; the session is live.
    RegisterClient,
    /// Give up before registration: close the socket and return.
    AbortConnect,
    /// Send a ping frame.
    SendPing,
    /// Encode and send the frame at the front of the fan-out queue.
    SendQueuedFrame,
    /// Decode the inbound text frame and route it.
    ProcessInbound,
    /// Remove the client id from the registry and close the socket.
    Teardown,
    /// Nothing.
    DoNothing,
}

/// The session state machine. Transitions are one-way and `Closed` is
/// terminal.
pub open spec fn spec_session_step(s: SessionState, ev: SessionEvent) -> (
    SessionState,
    SessionAction,
) {
    match s {
        SessionState::Started => match ev {
            SessionEvent::FirstFrameSent => (SessionState::Active, SessionAction::RegisterClient),
            SessionEvent::FirstFrameSendFailed => (
                SessionState::Closed,
                SessionAction::AbortConnect,
            ),
            _ => (SessionState::Started, SessionAction::DoNothing),
        },
        SessionState::Active => match ev {
            SessionEvent::PingDue => (SessionState::Active, SessionAction::SendPing),
            SessionEvent::PingSendFailed => (SessionState::Closed, SessionAction::Teardown),
            SessionEvent::OutboundFrameReady => (
                SessionState::Active,
                SessionAction::SendQueuedFrame,
            ),
            SessionEvent::OutboundSendFailed => (SessionState::Closed, SessionAction::Teardown),
            SessionEvent::InboundText => (SessionState::Active, SessionAction::ProcessInbound),
            SessionEvent::InboundClose => (SessionState::Closed, SessionAction::Teardown),
            SessionEvent::InboundOther => (SessionState::Active, SessionAction::DoNothing),
            SessionEvent::SocketError => (SessionState::Closed, SessionAction::Teardown),
            SessionEvent::Evicted => (SessionState::Closed, SessionAction::Teardown),
            _ => (SessionState::Active, SessionAction::DoNothing),
        },
        SessionState::Closed => (SessionState::Closed, SessionAction::DoNothing),
    }
}

/// One step of the session state machine.
pub fn session_step(s: SessionState, ev: SessionEvent) -> (r: (SessionState, SessionAction))
    ensures
        r == spec_session_step(s, ev),
{
    match s {
        SessionState::Started => match ev {
            SessionEvent::FirstFrameSent => (SessionState::Active, SessionAction::RegisterClient),
            SessionEvent::FirstFrameSendFailed => (
                SessionState::Closed,
                SessionAction::AbortConnect,
            ),
            _ => (SessionState::Started, SessionAction::DoNothing),
        },
        SessionState::Active => match ev {
            SessionEvent::PingDue => (SessionState::Active, SessionAction::SendPing),
            SessionEvent::PingSendFailed => (SessionState::Closed, SessionAction::Teardown),
            SessionEvent::OutboundFrameReady => (
                SessionState::Active,
                SessionAction::SendQueuedFrame,
            ),
            SessionEvent::OutboundSendFailed => (SessionState::Closed, SessionAction::Teardown),
            SessionEvent::InboundText => (SessionState::Active, SessionAction::ProcessInbound),
            SessionEvent::InboundClose => (SessionState::Closed, SessionAction::Teardown),
            SessionEvent::InboundOther => (SessionState::Active, SessionAction::DoNothing),
            SessionEvent::SocketError => (SessionState::Closed, SessionAction::Teardown),
            SessionEvent::Evicted => (SessionState::Closed, SessionAction::Teardown),
            _ => (SessionState::Active, SessionAction::DoNothing),
        },
        SessionState::Closed => (SessionState::Closed, SessionAction::DoNothing),
    }
}

/// `Closed` is terminal: no event leaves it.
pub proof fn lemma_closed_terminal(ev: SessionEvent)
    ensures
        spec_session_step(SessionState::Closed, ev).0 == SessionState::Closed,
{
}

/// How far along its lifecycle a session is.
pub open spec fn session_rank(s: SessionState) -> int {
    match s {
        SessionState::Started => 0,
        SessionState::Active => 1,
        SessionState::Closed => 2,
    }
}

/// Transitions are one-way: no event moves a session backwards.
pub proof fn lemma_session_one_way(s: SessionState, ev: SessionEvent)
    ensures
        session_rank(spec_session_step(s, ev).0) >= session_rank(s),
{
}

/// Where an inbound text frame went.
pub enum InboundOutcome<S> {
    /// A reply whose request id was waiting: hand the message to this slot.
    Forward(S, RelayMessage),
    /// A reply for an unknown or already-answered request id: dropped.
    Discard,
    /// Undecodable bytes or a variant the server does not act on: ignored.
    Ignore,
}

/// Routes one inbound text frame: a decodable `ProxyResponse` takes its
/// reply slot from the pending table (at most once per request id) and is
/// handed over; everything else is discarded or ignored.
pub fn handle_inbound_text<S>(state: &mut AppState<S>, payload: &Vec<u8>) -> (r: InboundOutcome<
    S,
>)
    requires
        old(state).wf(),
    ensures
        final(state).wf(),
        final(state).clients_view() == old(state).clients_view(),
        final(state).token_view() == old(state).token_view(),
        final(state).proxy_timeout_view() == old(state).proxy_timeout_view(),
        final(state).ping_interval_view() == old(state).ping_interval_view(),
        final(state).client_ttl_view() == old(state).client_ttl_view(),
        match dec_msg(payload@) {
            Some(v) => match v {
                RelayMessageView::ProxyResponse { request_id, headers, body, status } => {
                    if old(state).pending_view().contains_key(request_id) {
                        &&& r matches InboundOutcome::Forward(slot, m) && slot == old(state).pending_view()[request_id] && m@ == v
                        &&& final(state).pending_view() == old(state).pending_view().remove(
                            request_id,
                        )
                    } else {
                        &&& r is Discard
                        &&& final(state).pending_view() == old(state).pending_view()
                    }
                },
                _ => r is Ignore && final(state).pending_view() == old(state).pending_view(),
            },
            None => r is Ignore && final(state).pending_view() == old(state).pending_view(),
        },
{
    match decode_message(payload) {
        Some(m) => match m {
            RelayMessage::ProxyResponse { request_id, headers, body, status } => {
                let taken = state.remove_proxy_request(&request_id);
                proof {
                    if !old(state).pending_view().contains_key(request_id@) {
                        assert(old(state).pending_view().remove(request_id@) =~= old(state).pending_view());
                    }
                }
                match taken {
                    Some(tx) => InboundOutcome::Forward(
                        tx,
                        RelayMessage::ProxyResponse { request_id, headers, body, status },
                    ),
                    None => InboundOutcome::Discard,
                }
            },
            _ => InboundOutcome::Ignore,
        },
        None => InboundOutcome::Ignore,
    }
}

} // verus!
