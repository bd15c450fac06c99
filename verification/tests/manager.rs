use kaku::agent_status::events::{
    AgentEvent, SessionStatus, SessionStatusConfidence, SessionStatusSource,
};
use kaku::agent_status::manager::{
    is_transition_allowed, map_agent_event_to_status, SessionStatusManager, SessionStatusSnapshot,
};

fn default_snapshot(status: SessionStatus) -> SessionStatusSnapshot {
    SessionStatusSnapshot::new(
        status,
        SessionStatusSource::Heuristic,
        SessionStatusConfidence::Low,
        None,
    )
}

#[test]
fn validates_transition_rules() {
    assert!(is_transition_allowed(
        SessionStatus::Idle,
        SessionStatus::Loading
    ));
    assert!(is_transition_allowed(
        SessionStatus::Running,
        SessionStatus::NeedApprove
    ));
    assert!(!is_transition_allowed(
        SessionStatus::Done,
        SessionStatus::NeedApprove
    ));
    assert!(!is_transition_allowed(
        SessionStatus::Error,
        SessionStatus::Done
    ));
}

#[test]
fn applies_valid_transition() {
    let mut manager = SessionStatusManager::default();
    manager.register_session("sess-1", default_snapshot(SessionStatus::Idle));
    let transition = manager
        .update_status("sess-1", default_snapshot(SessionStatus::Loading))
        .expect("update status")
        .expect("transition should exist");
    assert_eq!(transition.previous.status, SessionStatus::Idle);
    assert_eq!(transition.current.status, SessionStatus::Loading);
    assert_eq!(
        manager.snapshot("sess-1").expect("snapshot").status,
        SessionStatus::Loading
    );
}

#[test]
fn rejects_invalid_transition() {
    let mut manager = SessionStatusManager::default();
    manager.register_session("sess-1", default_snapshot(SessionStatus::Done));
    let err = manager
        .update_status("sess-1", default_snapshot(SessionStatus::NeedApprove))
        .expect_err("must reject invalid transition");
    let message = err.message();
    assert!(message.contains("invalid session status transition"));
}

#[test]
fn maps_agent_events_to_status() {
    let event = AgentEvent::ApprovalRequired {
        provider: "codex".to_string(),
        detail: Some("approval needed".to_string()),
    };
    let (status, reason) = map_agent_event_to_status(&event);
    assert_eq!(status, SessionStatus::NeedApprove);
    assert_eq!(reason.as_deref(), Some("approval needed"));

    let failed = AgentEvent::TaskFailed {
        provider: "codex".to_string(),
        reason: Some("exit 1".to_string()),
    };
    let (status, reason) = map_agent_event_to_status(&failed);
    assert_eq!(status, SessionStatus::Error);
    assert_eq!(reason.as_deref(), Some("exit 1"));
}

#[test]
fn applies_agent_event_updates_state() {
    let mut manager = SessionStatusManager::default();
    manager.register_session("sess-1", default_snapshot(SessionStatus::Idle));

    manager
        .apply_agent_event(
            "sess-1",
            &AgentEvent::TaskStarted {
                provider: "codex".to_string(),
            },
            SessionStatusSource::Structured,
            SessionStatusConfidence::High,
        )
        .expect("started should apply");
    assert_eq!(
        manager.snapshot("sess-1").expect("snapshot").status,
        SessionStatus::Loading
    );

    manager
        .apply_agent_event(
            "sess-1",
            &AgentEvent::TaskOutput {
                provider: "codex".to_string(),
            },
            SessionStatusSource::Structured,
            SessionStatusConfidence::High,
        )
        .expect("output should apply");
    assert_eq!(
        manager.snapshot("sess-1").expect("snapshot").status,
        SessionStatus::Running
    );

    manager
        .apply_agent_event(
            "sess-1",
            &AgentEvent::TaskCompleted {
                provider: "codex".to_string(),
            },
            SessionStatusSource::Structured,
            SessionStatusConfidence::High,
        )
        .expect("completed should apply");
    assert_eq!(
        manager.snapshot("sess-1").expect("snapshot").status,
        SessionStatus::Done
    );
}
