use kaku::agent_status::events::AgentEvent;
use kaku::codex_app_server::{extract_thread_id, map_app_server_notification, map_turn_completed};
use kaku::json::{parse, Json};

fn json(text: &str) -> Json {
    parse(text).expect("json")
}

#[test]
fn maps_turn_started_to_loading_event() {
    let events = map_app_server_notification("turn/started", Some(&json(r#"{"threadId":"t1"}"#)))
        .expect("mapped");
    assert_eq!(
        events,
        vec![AgentEvent::TaskStarted {
            provider: "codex".to_string(),
        }]
    );
}

#[test]
fn maps_waiting_on_approval_to_need_approve() {
    let events = map_app_server_notification(
        "thread/status/changed",
        Some(&json(r#"{"status":{"type":"active","activeFlags":["waitingOnApproval"]}}"#)),
    )
    .expect("mapped");
    assert_eq!(
        events,
        vec![AgentEvent::ApprovalRequired {
            provider: "codex".to_string(),
            detail: Some("waitingOnApproval".to_string()),
        }]
    );
}

#[test]
fn maps_turn_completed_failed_to_error() {
    let events = map_turn_completed(&json(r#"{ "turn": {"status":"failed","error":{"message":"boom"}} }"#));
    assert_eq!(
        events,
        vec![AgentEvent::TaskFailed {
            provider: "codex".to_string(),
            reason: Some("boom".to_string()),
        }]
    );
}

#[test]
fn extracts_thread_id_from_standard_params_shape() {
    let thread_id = extract_thread_id(Some(&json(r#"{ "threadId": "thread_123" }"#)));
    assert_eq!(thread_id.as_deref(), Some("thread_123"));
}

#[test]
fn extracts_thread_id_from_nested_thread_shape() {
    let thread_id = extract_thread_id(Some(&json(r#"{ "thread": {"id": "thread_456"} }"#)));
    assert_eq!(thread_id.as_deref(), Some("thread_456"));
}
