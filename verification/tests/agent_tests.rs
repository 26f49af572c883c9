use rusty_relay::agent::{build_proxy_response, build_target_url, handle_message, is_version_flag,
    status_indicates_error, ws_url, AgentAction};
use rusty_relay::messages::RelayMessage;
use rusty_relay::session::{session_step, SessionAction, SessionEvent, SessionState};

#[test]
fn test_ws_url() {
    assert_eq!(ws_url(true, &"localhost:8080".to_string()), "ws://localhost:8080/connect");
    assert_eq!(ws_url(false, &"my.server.com".to_string()), "wss://my.server.com/connect");
}

#[test]
fn test_is_version_flag() {
    assert!(is_version_flag(&"-v".to_string()));
    assert!(is_version_flag(&"--version".to_string()));
    assert!(!is_version_flag(&"--verbose".to_string()));
}

#[test]
fn test_build_target_url() {
    let target = "http://localhost:3000/api".to_string();
    assert_eq!(build_target_url(&target, &None), "http://localhost:3000/api");
    assert_eq!(
        build_target_url(&target, &Some("ping".to_string())),
        "http://localhost:3000/api/ping"
    );
}

#[test]
fn test_status_indicates_error() {
    assert!(!status_indicates_error(200));
    assert!(!status_indicates_error(307));
    assert!(status_indicates_error(400));
    assert!(status_indicates_error(504));
    assert!(!status_indicates_error(100));
}

#[test]
fn test_handle_message_client_id_announces_urls() {
    let action = handle_message(
        RelayMessage::ClientId("abc123abc123".to_string()),
        true,
        &"localhost:8080".to_string(),
    );
    match action {
        AgentAction::Announce { webhook_url, proxy_url } => {
            assert_eq!(webhook_url, "http://localhost:8080/webhook/abc123abc123");
            assert_eq!(proxy_url, "http://localhost:8080/proxy/abc123abc123");
        }
        _ => panic!("the client id frame announces the public URLs"),
    }
}

#[test]
fn test_handle_message_webhook_forwards() {
    let action = handle_message(
        RelayMessage::Webhook {
            method: "POST".to_string(),
            headers: vec![("h".to_string(), "v".to_string())],
            body: b"data".to_vec(),
        },
        false,
        &"srv".to_string(),
    );
    match action {
        AgentAction::ForwardWebhook { method, headers, body } => {
            assert_eq!(method, "POST");
            assert_eq!(headers, vec![("h".to_string(), "v".to_string())]);
            assert_eq!(body, b"data".to_vec());
        }
        _ => panic!("a webhook frame is replayed locally"),
    }
}

#[test]
fn test_handle_message_proxy_request_performs() {
    let action = handle_message(
        RelayMessage::ProxyRequest {
            request_id: "r0r0r0r0r0r0r0r0r0r0".to_string(),
            method: "GET".to_string(),
            headers: Vec::new(),
            body: Vec::new(),
            path: Some("ping".to_string()),
            query: None,
        },
        false,
        &"srv".to_string(),
    );
    match action {
        AgentAction::PerformProxy { request_id, method, path, .. } => {
            assert_eq!(request_id, "r0r0r0r0r0r0r0r0r0r0");
            assert_eq!(method, "GET");
            assert_eq!(path.as_deref(), Some("ping"));
        }
        _ => panic!("a relayed request is replayed locally"),
    }
}

#[test]
fn test_handle_message_ignores_responses() {
    let action = handle_message(
        RelayMessage::ProxyResponse {
            request_id: "r".to_string(),
            headers: Vec::new(),
            body: Vec::new(),
            status: 200,
        },
        false,
        &"srv".to_string(),
    );
    assert!(matches!(action, AgentAction::Ignore));
}

#[test]
fn test_build_proxy_response() {
    match build_proxy_response("rid0rid0rid0rid0rid0".to_string(), 201, Vec::new(), b"ok".to_vec())
    {
        RelayMessage::ProxyResponse { request_id, status, body, .. } => {
            assert_eq!(request_id, "rid0rid0rid0rid0rid0");
            assert_eq!(status, 201);
            assert_eq!(body, b"ok".to_vec());
        }
        _ => panic!("the reply frame carries the same request id"),
    }
}

#[test]
fn test_session_lifecycle() {
    let (s, a) = session_step(SessionState::Started, SessionEvent::FirstFrameSent);
    assert_eq!((s, a), (SessionState::Active, SessionAction::RegisterClient));
    let (s, a) = session_step(s, SessionEvent::PingDue);
    assert_eq!((s, a), (SessionState::Active, SessionAction::SendPing));
    let (s, a) = session_step(s, SessionEvent::OutboundFrameReady);
    assert_eq!((s, a), (SessionState::Active, SessionAction::SendQueuedFrame));
    let (s, a) = session_step(s, SessionEvent::InboundText);
    assert_eq!((s, a), (SessionState::Active, SessionAction::ProcessInbound));
    let (s, a) = session_step(s, SessionEvent::InboundClose);
    assert_eq!((s, a), (SessionState::Closed, SessionAction::Teardown));
    // Closed is terminal
    let (s, a) = session_step(s, SessionEvent::PingDue);
    assert_eq!((s, a), (SessionState::Closed, SessionAction::DoNothing));
}

#[test]
fn test_session_abort_before_registration() {
    let (s, a) = session_step(SessionState::Started, SessionEvent::FirstFrameSendFailed);
    assert_eq!((s, a), (SessionState::Closed, SessionAction::AbortConnect));
}

#[test]
fn test_session_eviction_closes() {
    let (s, a) = session_step(SessionState::Active, SessionEvent::Evicted);
    assert_eq!((s, a), (SessionState::Closed, SessionAction::Teardown));
}
