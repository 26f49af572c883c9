use rusty_relay::channel::FanOut;
use rusty_relay::messages::RelayMessage;
use rusty_relay::registry::SendOutcome;
use rusty_relay::state::AppState;
use rusty_relay::{DEFAULT_CLIENT_TTL_MS, FANOUT_CAPACITY};

fn webhook_message(tag: &str) -> RelayMessage {
    RelayMessage::Webhook {
        method: "POST".to_string(),
        headers: Vec::new(),
        body: tag.as_bytes().to_vec(),
    }
}

#[test]
fn test_add_client_then_get() {
    let mut state: AppState<u32> = AppState::new("tok".to_string());
    let id = "abc123abc123".to_string();
    assert!(state.get_client(&id).is_none());
    state.add_client(&id, 0);
    let entry = state.get_client(&id).expect("the id was just registered");
    assert_eq!(entry.queue.len(), 0);
    assert_eq!(entry.expires_at_ms, DEFAULT_CLIENT_TTL_MS);
}

#[test]
fn test_add_client_twice_keeps_entry() {
    let mut state: AppState<u32> = AppState::new("tok".to_string());
    let id = "abc123abc123".to_string();
    state.add_client(&id, 0);
    state.publish(&id, webhook_message("one"));
    state.add_client(&id, 50);
    let entry = state.get_client(&id).expect("still registered");
    assert_eq!(entry.queue.len(), 1, "re-registration must keep the live entry");
    assert_eq!(entry.expires_at_ms, DEFAULT_CLIENT_TTL_MS);
}

#[test]
fn test_remove_client() {
    let mut state: AppState<u32> = AppState::new("tok".to_string());
    let id = "abc123abc123".to_string();
    state.add_client(&id, 0);
    state.remove_client(&id);
    assert!(state.get_client(&id).is_none());
}

#[test]
fn test_publish_to_unknown_client() {
    let mut state: AppState<u32> = AppState::new("tok".to_string());
    let id = "nobody-here!".to_string();
    assert_eq!(state.publish(&id, webhook_message("x")), SendOutcome::UnknownClient);
}

#[test]
fn test_fanout_fifo_per_producer() {
    let mut state: AppState<u32> = AppState::new("tok".to_string());
    let id = "abc123abc123".to_string();
    state.add_client(&id, 0);
    assert_eq!(state.publish(&id, webhook_message("first")), SendOutcome::Sent);
    assert_eq!(state.publish(&id, webhook_message("second")), SendOutcome::Sent);
    match state.pop_client(&id) {
        Some(RelayMessage::Webhook { body, .. }) => assert_eq!(body, b"first".to_vec()),
        other => panic!("expected the first webhook, got {:?}", other),
    }
    match state.pop_client(&id) {
        Some(RelayMessage::Webhook { body, .. }) => assert_eq!(body, b"second".to_vec()),
        other => panic!("expected the second webhook, got {:?}", other),
    }
    assert!(state.pop_client(&id).is_none());
}

#[test]
fn test_fanout_drops_when_full() {
    let mut state: AppState<u32> = AppState::new("tok".to_string());
    let id = "abc123abc123".to_string();
    state.add_client(&id, 0);
    for _ in 0..FANOUT_CAPACITY {
        assert_eq!(state.publish(&id, webhook_message("fill")), SendOutcome::Sent);
    }
    assert_eq!(state.publish(&id, webhook_message("over")), SendOutcome::Dropped);
    let entry = state.get_client(&id).expect("still registered");
    assert_eq!(entry.queue.len(), FANOUT_CAPACITY);
}

#[test]
fn test_direct_fanout_queue() {
    let mut q = FanOut::new();
    assert_eq!(q.len(), 0);
    assert!(q.pop().is_none());
    assert!(q.try_send(webhook_message("a")));
    assert!(q.try_send(webhook_message("b")));
    match q.pop() {
        Some(RelayMessage::Webhook { body, .. }) => assert_eq!(body, b"a".to_vec()),
        other => panic!("expected the first message, got {:?}", other),
    }
    assert_eq!(q.len(), 1);
}

#[test]
fn test_ttl_eviction() {
    let mut state: AppState<u32> = AppState::new("tok".to_string());
    let fresh = "fresh0fresh0".to_string();
    let stale = "stale0stale0".to_string();
    state.add_client(&stale, 0);
    state.add_client(&fresh, 1000);
    let evicted = state.evict_expired(DEFAULT_CLIENT_TTL_MS);
    assert_eq!(evicted, vec![stale.clone()]);
    assert!(state.get_client(&stale).is_none());
    assert!(state.get_client(&fresh).is_some());
}

#[test]
fn test_add_client_deadline_saturates() {
    let mut state: AppState<u32> = AppState::new("tok".to_string());
    let id = "abc123abc123".to_string();
    state.add_client(&id, u64::MAX - 1);
    let entry = state.get_client(&id).expect("registered");
    assert_eq!(entry.expires_at_ms, u64::MAX);
}

#[test]
fn test_pending_take_once() {
    let mut state: AppState<u32> = AppState::new("tok".to_string());
    let rid = "r1r1r1r1r1r1r1r1r1r1".to_string();
    state.add_proxy_request(&rid, 7);
    assert_eq!(state.remove_proxy_request(&rid), Some(7));
    assert_eq!(state.remove_proxy_request(&rid), None, "a slot comes out at most once");
}

#[test]
fn test_pending_take_unknown() {
    let mut state: AppState<u32> = AppState::new("tok".to_string());
    let rid = "never-inserted-here!".to_string();
    assert_eq!(state.remove_proxy_request(&rid), None);
}

#[test]
fn test_pending_insert_replaces() {
    let mut state: AppState<u32> = AppState::new("tok".to_string());
    let rid = "r1r1r1r1r1r1r1r1r1r1".to_string();
    state.add_proxy_request(&rid, 1);
    state.add_proxy_request(&rid, 2);
    assert_eq!(state.remove_proxy_request(&rid), Some(2));
    assert_eq!(state.remove_proxy_request(&rid), None);
}

#[test]
fn test_connect_token_is_kept() {
    let state: AppState<u32> = AppState::new("sesame".to_string());
    assert_eq!(state.connect_token(), "sesame");
}
