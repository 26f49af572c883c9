use rusty_relay::catch_all::{catch_all_handler, root_handler, RouteDecision};
use rusty_relay::codec::{decode_message, encode_message_checked};
use rusty_relay::error::HttpError;
use rusty_relay::health::health_handler;
use rusty_relay::messages::RelayMessage;
use rusty_relay::proxy::{proxy_accept, proxy_render};
use rusty_relay::session::{connect_handler, first_frame, handle_inbound_text, InboundOutcome,
    TokenHeader};
use rusty_relay::state::AppState;
use rusty_relay::webhook::webhook_handler;

#[test]
fn test_happy_proxy() {
    let mut state: AppState<u32> = AppState::new("right".to_string());
    let client_id = "abc123abc123".to_string();

    // agent connects: ClientId frame first, then registration
    let frame = first_frame(&client_id);
    match decode_message(&frame) {
        Some(RelayMessage::ClientId(id)) => assert_eq!(id, "abc123abc123"),
        other => panic!("the first frame must carry the client id, got {:?}", other),
    }
    state.add_client(&client_id, 0);

    // external caller: GET /proxy/abc123abc123/ping
    let accepted = proxy_accept(
        &mut state,
        &client_id,
        Some("ping".to_string()),
        None,
        "GET".to_string(),
        vec![("accept".to_string(), "*/*".to_string())],
        Vec::new(),
        1,
    );
    let request_id = accepted.expect("the client is live");
    assert_eq!(request_id.len(), 20);

    // the session delivers the queued frame to the agent
    match state.pop_client(&client_id) {
        Some(RelayMessage::ProxyRequest { request_id: rid, method, path, body, .. }) => {
            assert_eq!(rid, request_id);
            assert_eq!(method, "GET");
            assert_eq!(path.as_deref(), Some("ping"));
            assert!(body.is_empty());
        }
        other => panic!("expected the relayed request, got {:?}", other),
    }

    // the agent replies on the same socket
    let reply = RelayMessage::ProxyResponse {
        request_id: request_id.clone(),
        headers: vec![
            ("content-type".to_string(), "text/plain".to_string()),
            ("content-length".to_string(), "4".to_string()),
        ],
        body: b"pong".to_vec(),
        status: 200,
    };
    let reply_frame = encode_message_checked(&reply).expect("the reply is encodable");
    let forwarded = match handle_inbound_text(&mut state, &reply_frame) {
        InboundOutcome::Forward(slot, m) => {
            assert_eq!(slot, 1);
            m
        }
        _ => panic!("the reply slot was waiting"),
    };

    // the waiting caller renders the reply
    let rendered = proxy_render(&client_id, Some(forwarded));
    assert_eq!(rendered.status, 200);
    assert_eq!(rendered.body, b"pong".to_vec());
    assert_eq!(
        rendered.headers,
        vec![("content-type".to_string(), "text/plain".to_string())],
        "content-length must be elided"
    );
    assert_eq!(
        rendered.set_cookie.as_deref(),
        Some("client_id=abc123abc123; Path=/; HttpOnly")
    );
}

#[test]
fn test_timeout_then_late_reply_discarded() {
    let mut state: AppState<u32> = AppState::new("right".to_string());
    let client_id = "abc123abc123".to_string();
    state.add_client(&client_id, 0);

    let request_id = proxy_accept(
        &mut state,
        &client_id,
        Some("slow".to_string()),
        None,
        "GET".to_string(),
        Vec::new(),
        Vec::new(),
        1,
    )
    .expect("the client is live");

    // the wait elapses: 504, and the caller clears its own slot
    let rendered = proxy_render(&client_id, None);
    assert_eq!(rendered.status, 504);
    assert_eq!(rendered.body, b"Timeout".to_vec());
    assert_eq!(
        rendered.set_cookie.as_deref(),
        Some("client_id=abc123abc123; Path=/; HttpOnly")
    );
    assert_eq!(state.remove_proxy_request(&request_id), Some(1));

    // a late reply for the same request id is silently discarded
    let late = RelayMessage::ProxyResponse {
        request_id: request_id.clone(),
        headers: Vec::new(),
        body: b"late".to_vec(),
        status: 200,
    };
    let late_frame = encode_message_checked(&late).expect("encodable");
    assert!(matches!(
        handle_inbound_text(&mut state, &late_frame),
        InboundOutcome::Discard
    ));
}

#[test]
fn test_unknown_client_webhook() {
    let mut state: AppState<u32> = AppState::new("right".to_string());
    let err = webhook_handler(
        &mut state,
        &"does-not-exist".to_string(),
        "POST".to_string(),
        Vec::new(),
        b"{\"x\":1}".to_vec(),
    )
    .expect_err("no such client");
    assert_eq!(err.status_code(), 400);
    assert_eq!(err.message(), "Client id is unknown: does-not-exist");
}

#[test]
fn test_webhook_delivered() {
    let mut state: AppState<u32> = AppState::new("right".to_string());
    let client_id = "abc123abc123".to_string();
    state.add_client(&client_id, 0);
    webhook_handler(
        &mut state,
        &client_id,
        "POST".to_string(),
        vec![("content-type".to_string(), "application/json".to_string())],
        b"{\"x\":1}".to_vec(),
    )
    .expect("the client is live");
    match state.pop_client(&client_id) {
        Some(RelayMessage::Webhook { method, body, .. }) => {
            assert_eq!(method, "POST");
            assert_eq!(body, b"{\"x\":1}".to_vec());
        }
        other => panic!("expected the webhook frame, got {:?}", other),
    }
}

#[test]
fn test_unknown_client_proxy() {
    let mut state: AppState<u32> = AppState::new("right".to_string());
    let err = proxy_accept(
        &mut state,
        &"does-not-exist".to_string(),
        None,
        None,
        "GET".to_string(),
        Vec::new(),
        Vec::new(),
        1,
    )
    .expect_err("no such client");
    assert_eq!(err.status_code(), 400);
    assert_eq!(err.message(), "Client id is unknown: does-not-exist");
}

#[test]
fn test_auth_missing() {
    let state: AppState<u32> = AppState::new("right".to_string());
    let err = connect_handler(&state, &TokenHeader::Missing).expect_err("no token");
    assert_eq!(err.status_code(), 401);
    assert_eq!(err.message(), "Connection token is missing from header");
}

#[test]
fn test_auth_wrong() {
    let state: AppState<u32> = AppState::new("right".to_string());
    let err = connect_handler(&state, &TokenHeader::Text("wrong".to_string()))
        .expect_err("wrong token");
    assert_eq!(err.status_code(), 401);
    assert_eq!(err.message(), "Connection token is invalid");
}

#[test]
fn test_auth_bad_format() {
    let state: AppState<u32> = AppState::new("right".to_string());
    let err = connect_handler(&state, &TokenHeader::NotText).expect_err("unreadable token");
    assert_eq!(err.status_code(), 400);
    assert_eq!(err.message(), "Connection token has invalid format");
}

#[test]
fn test_auth_match_mints_id() {
    let state: AppState<u32> = AppState::new("right".to_string());
    let id = connect_handler(&state, &TokenHeader::Text("right".to_string()))
        .expect("matching token");
    assert_eq!(id.len(), 12);
    assert!(id.chars().all(|c| c.is_ascii_alphanumeric()));
}

#[test]
fn test_cookie_reroute() {
    let decision = catch_all_handler(
        &Some("abc123abc123".to_string()),
        &"assets/logo.png".to_string(),
        Vec::new(),
    );
    assert_eq!(decision.status_code(), 307);
    match decision {
        RouteDecision::Redirect(loc) => {
            assert_eq!(loc, "/proxy/abc123abc123/assets/logo.png")
        }
        other => panic!("expected a redirect, got {:?}", other),
    }
}

#[test]
fn test_cookie_reroute_collapses_slashes_and_keeps_query() {
    let decision = catch_all_handler(
        &Some("abc123abc123".to_string()),
        &"//deep/path".to_string(),
        vec![("a".to_string(), "1".to_string())],
    );
    match decision {
        RouteDecision::Redirect(loc) => assert_eq!(loc, "/proxy/abc123abc123/deep/path?a=1"),
        other => panic!("expected a redirect, got {:?}", other),
    }
}

#[test]
fn test_catch_all_without_cookie() {
    let decision = catch_all_handler(&None, &"anything".to_string(), Vec::new());
    assert_eq!(decision.status_code(), 200);
    assert!(matches!(decision, RouteDecision::Empty));
}

#[test]
fn test_root_with_cookie() {
    let decision = root_handler(
        &Some("abc123abc123".to_string()),
        vec![("q".to_string(), "1".to_string())],
    );
    match decision {
        RouteDecision::Redirect(loc) => assert_eq!(loc, "/proxy/abc123abc123?q=1"),
        other => panic!("expected a redirect, got {:?}", other),
    }
}

#[test]
fn test_root_without_cookie() {
    let decision = root_handler(&None, Vec::new());
    assert_eq!(decision.status_code(), 404);
    assert!(matches!(decision, RouteDecision::NotFound));
}

#[test]
fn test_health() {
    let (status, body) = health_handler();
    assert_eq!(status, 200);
    assert_eq!(body, "{\"status\":\"UP\"}");
}

#[test]
fn test_inbound_garbage_ignored() {
    let mut state: AppState<u32> = AppState::new("right".to_string());
    assert!(matches!(
        handle_inbound_text(&mut state, &b"not a frame".to_vec()),
        InboundOutcome::Ignore
    ));
}

#[test]
fn test_http_error_statuses() {
    assert_eq!(HttpError::BadRequest("m".to_string()).status_code(), 400);
    assert_eq!(HttpError::GatewayTimeout("m".to_string()).status_code(), 504);
    assert_eq!(HttpError::Unauthorized("m".to_string()).status_code(), 401);
}
