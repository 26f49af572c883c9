use rusty_relay::codec::{decode_message, encode_message_checked};
use rusty_relay::messages::RelayMessage;

fn encode(m: &RelayMessage) -> Vec<u8> {
    encode_message_checked(m).expect("the frame should be encodable")
}

#[test]
fn test_client_id_round_trip() {
    let frame = encode(&RelayMessage::ClientId("abc123abc123".to_string()));
    match decode_message(&frame) {
        Some(RelayMessage::ClientId(id)) => assert_eq!(id, "abc123abc123"),
        other => panic!("expected a ClientId frame, got {:?}", other),
    }
}

#[test]
fn test_webhook_round_trip() {
    let sent = RelayMessage::Webhook {
        method: "POST".to_string(),
        headers: vec![
            ("content-type".to_string(), "application/json".to_string()),
            ("x-hook".to_string(), "1".to_string()),
        ],
        body: vec![0u8, 159, 146, 150, 255],
    };
    let frame = encode(&sent);
    match decode_message(&frame) {
        Some(RelayMessage::Webhook { method, headers, body }) => {
            assert_eq!(method, "POST");
            assert_eq!(
                headers,
                vec![
                    ("content-type".to_string(), "application/json".to_string()),
                    ("x-hook".to_string(), "1".to_string()),
                ]
            );
            assert_eq!(body, vec![0u8, 159, 146, 150, 255]);
        }
        other => panic!("expected a Webhook frame, got {:?}", other),
    }
}

#[test]
fn test_proxy_request_round_trip() {
    let sent = RelayMessage::ProxyRequest {
        request_id: "r1r1r1r1r1r1r1r1r1r1".to_string(),
        method: "GET".to_string(),
        headers: vec![("accept".to_string(), "*/*".to_string())],
        body: Vec::new(),
        path: Some("ping".to_string()),
        query: None,
    };
    let frame = encode(&sent);
    match decode_message(&frame) {
        Some(RelayMessage::ProxyRequest { request_id, method, headers, body, path, query }) => {
            assert_eq!(request_id, "r1r1r1r1r1r1r1r1r1r1");
            assert_eq!(method, "GET");
            assert_eq!(headers, vec![("accept".to_string(), "*/*".to_string())]);
            assert!(body.is_empty());
            assert_eq!(path.as_deref(), Some("ping"));
            assert_eq!(query, None);
        }
        other => panic!("expected a ProxyRequest frame, got {:?}", other),
    }
}

#[test]
fn test_proxy_request_with_query_round_trip() {
    let sent = RelayMessage::ProxyRequest {
        request_id: "q0q0q0q0q0q0q0q0q0q0".to_string(),
        method: "PUT".to_string(),
        headers: Vec::new(),
        body: b"payload".to_vec(),
        path: None,
        query: Some("?a=1&b=2".to_string()),
    };
    let frame = encode(&sent);
    match decode_message(&frame) {
        Some(RelayMessage::ProxyRequest { path, query, body, .. }) => {
            assert_eq!(path, None);
            assert_eq!(query.as_deref(), Some("?a=1&b=2"));
            assert_eq!(body, b"payload".to_vec());
        }
        other => panic!("expected a ProxyRequest frame, got {:?}", other),
    }
}

#[test]
fn test_proxy_response_round_trip() {
    let sent = RelayMessage::ProxyResponse {
        request_id: "r2r2r2r2r2r2r2r2r2r2".to_string(),
        headers: vec![("content-type".to_string(), "text/plain".to_string())],
        body: b"pong".to_vec(),
        status: 200,
    };
    let frame = encode(&sent);
    match decode_message(&frame) {
        Some(RelayMessage::ProxyResponse { request_id, headers, body, status }) => {
            assert_eq!(request_id, "r2r2r2r2r2r2r2r2r2r2");
            assert_eq!(headers, vec![("content-type".to_string(), "text/plain".to_string())]);
            assert_eq!(body, b"pong".to_vec());
            assert_eq!(status, 200);
        }
        other => panic!("expected a ProxyResponse frame, got {:?}", other),
    }
}

#[test]
fn test_decode_rejects_unknown_tag() {
    assert!(decode_message(&vec![9u8, 0, 0, 0, 0]).is_none());
}

#[test]
fn test_decode_rejects_empty_input() {
    assert!(decode_message(&Vec::new()).is_none());
}

#[test]
fn test_decode_rejects_trailing_bytes() {
    let mut frame = encode(&RelayMessage::ClientId("abc123abc123".to_string()));
    frame.push(0);
    assert!(decode_message(&frame).is_none());
}

#[test]
fn test_decode_rejects_truncated_frame() {
    let mut frame = encode(&RelayMessage::ClientId("abc123abc123".to_string()));
    frame.pop();
    assert!(decode_message(&frame).is_none());
}

#[test]
fn test_decode_rejects_non_ascii_text() {
    // a ClientId frame whose single character is not an ASCII code
    let frame = vec![2u8, 1, 0, 0, 0, 200];
    assert!(decode_message(&frame).is_none());
}

#[test]
fn test_encode_checked_rejects_non_ascii_text() {
    let m = RelayMessage::ClientId("\u{e9}".to_string());
    assert!(encode_message_checked(&m).is_none());
}
