use kaku::agent_status::adapters::{
    AgentAdapterRegistry, AgentPaneOutputSample, RegisteredAdapter, UserVars,
};
use kaku::agent_status::bridge::{
    process_agent_user_var_signal, session_status_key, AgentStatusBridge, ChannelAction,
};
use kaku::agent_status::events::{
    AgentEvent, SessionStatus, SessionStatusConfidence, SessionStatusSource,
};
use kaku::agent_status::manager::{
    is_transition_allowed, SessionStatusError, SessionStatusManager, SessionStatusSnapshot,
};
use kaku::codex_app_server::CodexChannels;

const HEURISTIC: SessionStatusSource = SessionStatusSource::Heuristic;
const STRUCTURED: SessionStatusSource = SessionStatusSource::Structured;
const LOW: SessionStatusConfidence = SessionStatusConfidence::Low;
const HIGH: SessionStatusConfidence = SessionStatusConfidence::High;

fn snapshot(status: SessionStatus) -> SessionStatusSnapshot {
    SessionStatusSnapshot::new(status, HEURISTIC, LOW, None)
}

fn binding() -> Option<(String, String)> {
    Some(("p".to_string(), "s".to_string()))
}

fn started() -> AgentEvent {
    AgentEvent::TaskStarted { provider: "codex".to_string() }
}

fn output() -> AgentEvent {
    AgentEvent::TaskOutput { provider: "codex".to_string() }
}

#[test]
fn events_of_a_bound_pane_wait_to_be_written_once_per_session() {
    let mut bridge = AgentStatusBridge::new();
    assert_eq!(session_status_key("p", "s"), "p/s");
    let schedule = bridge.process_agent_events_for_pane(
        &binding(),
        None,
        &vec![started(), output()],
        HEURISTIC,
        LOW,
    );
    assert!(schedule);
    let writes = bridge.flush_pending_session_status_writes();
    assert_eq!(writes.len(), 1);
    assert_eq!(writes[0].project_id, "p");
    assert_eq!(writes[0].session_id, "s");
    assert_eq!(writes[0].snapshot.status, SessionStatus::Running);
    assert!(bridge.flush_pending_session_status_writes().is_empty());
}

#[test]
fn events_of_an_unbound_pane_are_dropped() {
    let mut bridge = AgentStatusBridge::new();
    assert!(!bridge.process_agent_events_for_pane(&None, None, &vec![started()], HEURISTIC, LOW));
    assert!(bridge.flush_pending_session_status_writes().is_empty());
    assert!(!bridge.process_agent_events_for_pane(&binding(), None, &vec![], HEURISTIC, LOW));
}

#[test]
fn a_flush_is_scheduled_once() {
    let mut bridge = AgentStatusBridge::new();
    assert!(bridge.enqueue_session_status_write("p", "s", snapshot(SessionStatus::Loading)));
    assert!(!bridge.enqueue_session_status_write("p", "t", snapshot(SessionStatus::Done)));
    assert!(!bridge.enqueue_session_status_write("p", "s", snapshot(SessionStatus::Running)));
    let writes = bridge.flush_pending_session_status_writes();
    assert_eq!(writes.len(), 2);
    let of = |id: &str| writes.iter().find(|w| w.session_id == id).map(|w| w.snapshot.status);
    assert_eq!(of("s"), Some(SessionStatus::Running));
    assert_eq!(of("t"), Some(SessionStatus::Done));
    assert!(bridge.enqueue_session_status_write("p", "s", snapshot(SessionStatus::Done)));
}

#[test]
fn the_stored_status_is_where_a_session_begins() {
    let mut bridge = AgentStatusBridge::new();
    bridge.process_agent_events_for_session(
        "p",
        "s",
        Some(snapshot(SessionStatus::Running)),
        &vec![AgentEvent::ApprovalRequired { provider: "codex".to_string(), detail: None }],
        STRUCTURED,
        HIGH,
    );
    let writes = bridge.flush_pending_session_status_writes();
    assert_eq!(writes[0].snapshot.status, SessionStatus::NeedApprove);
    assert_eq!(writes[0].snapshot.source, STRUCTURED);
    assert_eq!(writes[0].snapshot.confidence, HIGH);
    bridge.process_agent_events_for_session(
        "p",
        "t",
        None,
        &vec![AgentEvent::ApprovalRequired { provider: "codex".to_string(), detail: None }],
        STRUCTURED,
        HIGH,
    );
    assert!(bridge.flush_pending_session_status_writes().is_empty());
}

#[test]
fn app_server_events_are_structured_and_name_their_thread() {
    let mut bridge = AgentStatusBridge::new();
    let (thread, schedule) = bridge.handle_codex_app_server_event(
        &binding(),
        None,
        &vec![started()],
        &Some("t1".to_string()),
    );
    assert_eq!(thread, Some(("p".to_string(), "s".to_string(), "t1".to_string())));
    assert!(schedule);
    assert_eq!(bridge.flush_pending_session_status_writes()[0].snapshot.confidence, HIGH);
    let (thread, schedule) =
        bridge.handle_codex_app_server_event(&None, None, &vec![], &Some("t1".to_string()));
    assert_eq!(thread, None);
    assert!(!schedule);
}

#[test]
fn an_open_channel_silences_user_variables() {
    let mut bridge = AgentStatusBridge::new();
    let mut channels = CodexChannels::new();
    let mut registry = AgentAdapterRegistry::with_defaults();
    let vars = UserVars::new();
    let mut signal = |name: &str, value: &str| {
        process_agent_user_var_signal(
            &mut bridge,
            &mut channels,
            &mut registry,
            7,
            name,
            value,
            &vars,
            &binding(),
            None,
        )
    };
    assert_eq!(signal("kaku_last_cmd", "codex"), (ChannelAction::Keep, true));
    let (action, _) = signal("kaku_codex_app_server_ws", "ws://h");
    assert_eq!(action, ChannelAction::Open { url: "ws://h".to_string(), token: None });
    assert_eq!(signal("kaku_last_cmd", "codex"), (ChannelAction::Keep, false));
    assert_eq!(signal("kaku_codex_app_server_ws", "__stop__").0, ChannelAction::Stop);
}

#[test]
fn the_registry_asks_every_adapter() {
    let mut registry = AgentAdapterRegistry::with_defaults();
    assert_eq!(registry.adapters.len(), 2);
    assert_eq!(registry.adapters[0].adapter.provider(), "codex");
    let events = registry.observe_user_var("1", "kaku_last_cmd", "codex", &UserVars::new());
    assert_eq!(events, vec![started(), output()]);
    let sample = AgentPaneOutputSample {
        tail_text: "working".to_string(),
        current_command: Some("codex".to_string()),
        foreground_process_name: None,
    };
    assert!(registry.observe_pane_output("2", &AgentPaneOutputSample::default()).is_empty());
    assert_eq!(registry.observe_pane_output("1", &sample).len(), 1);
    registry.register(RegisteredAdapter::codex());
    assert_eq!(registry.adapters.len(), 3);
    assert_eq!(registry.observe_user_var("9", "kaku_last_cmd", "codex", &UserVars::new()).len(), 4);
}

#[test]
fn every_transition_is_as_it_should_be() {
    let all = [
        SessionStatus::Idle,
        SessionStatus::Loading,
        SessionStatus::NeedApprove,
        SessionStatus::Running,
        SessionStatus::Done,
        SessionStatus::Error,
    ];
    let allowed = [
        (0, 1), (0, 3), (1, 0), (1, 3), (1, 4), (1, 5), (3, 0), (3, 2), (3, 4), (3, 5), (2, 0),
        (2, 3), (2, 5), (4, 0), (5, 0), (5, 1),
    ];
    for i in 0..6 {
        for j in 0..6 {
            assert_eq!(
                is_transition_allowed(all[i], all[j]),
                i == j || allowed.contains(&(i, j)),
                "{i} {j}"
            );
        }
    }
}

#[test]
fn errors_say_what_is_wrong() {
    let mut manager = SessionStatusManager::default();
    let err = manager.update_status("s", snapshot(SessionStatus::Idle)).expect_err("unknown");
    assert_eq!(err, SessionStatusError::SessionNotRegistered { session_id: "s".to_string() });
    assert_eq!(err.message(), "session not registered: s");
    manager.register_session("s", snapshot(SessionStatus::Done));
    let err = manager.update_status("s", snapshot(SessionStatus::Loading)).expect_err("invalid");
    assert_eq!(err.message(), "invalid session status transition for s: done -> loading");
    assert_eq!(manager.update_status("s", snapshot(SessionStatus::Done)), Ok(None));
    assert_eq!(manager.snapshot("s").map(|s| s.status), Some(SessionStatus::Done));
    assert_eq!(manager.remove_session("s").map(|s| s.status), Some(SessionStatus::Done));
    assert_eq!(manager.snapshot("s"), None);
}
