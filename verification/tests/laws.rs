use kaku::agent_status::adapters::codex::CodexAdapter;
use kaku::agent_status::adapters::codex_output::{
    extract_app_server_notification, extract_approval_prompt,
};
use kaku::agent_status::adapters::{
    AgentAdapter, AgentAdapterRegistry, AgentPaneOutputSample, UserVars,
};
use kaku::agent_status::bridge::{observe_user_var_signal, AgentStatusBridge, ChannelAction};
use kaku::agent_status::events::{
    AgentEvent, SessionStatus, SessionStatusConfidence, SessionStatusSource,
};
use kaku::agent_status::manager::{SessionStatusManager, SessionStatusSnapshot};
use kaku::codex_app_server::CodexChannels;
use kaku::order::is_before;
use kaku::paths::{is_under, join_path};
use kaku::sidebar::model::{ProjectEntry, SessionEntry, SessionsFile};
use kaku::sidebar::status::Timestamp;
use kaku::sidebar::store::load_workspace_sidebar_projects;

fn vars(pairs: &[(&str, &str)]) -> UserVars {
    let mut out = UserVars::new();
    for (name, value) in pairs {
        out.insert(name.to_string(), value.to_string());
    }
    out
}

fn sample(tail_text: &str) -> AgentPaneOutputSample {
    AgentPaneOutputSample {
        tail_text: tail_text.to_string(),
        current_command: Some("codex".to_string()),
        foreground_process_name: Some("codex".to_string()),
    }
}

fn snapshot(status: SessionStatus) -> SessionStatusSnapshot {
    SessionStatusSnapshot::new(
        status,
        SessionStatusSource::Structured,
        SessionStatusConfidence::High,
        None,
    )
}

#[test]
fn a_pane_does_not_disturb_another() {
    let none = UserVars::new();
    let mut alone = CodexAdapter::default();
    let mut both = CodexAdapter::default();
    both.observe_user_var("2", "kaku_last_cmd", "codex", &none);
    both.observe_pane_output("2", &sample(r#"{"method":"turn/started","params":{}}"#));
    assert_eq!(
        both.observe_user_var("1", "kaku_last_cmd", "codex run", &none),
        alone.observe_user_var("1", "kaku_last_cmd", "codex run", &none)
    );
    assert_eq!(
        both.observe_pane_output("1", &sample("Allow command? [y/n]")),
        alone.observe_pane_output("1", &sample("Allow command? [y/n]"))
    );
}

#[test]
fn every_run_reports_its_end_once() {
    let mut adapter = CodexAdapter::default();
    let seen = vars(&[("kaku_last_cmd", "codex run")]);
    for _ in 0..3 {
        adapter.observe_user_var("1", "kaku_last_cmd", "codex run", &UserVars::new());
        assert_eq!(adapter.observe_user_var("1", "kaku_last_exit_code", "0", &seen).len(), 1);
        assert_eq!(adapter.observe_user_var("1", "kaku_last_exit_code", "0", &seen), vec![]);
    }
}

#[test]
fn a_prompt_that_stays_is_reported_once() {
    let mut adapter = CodexAdapter::default();
    adapter.observe_user_var("1", "kaku_last_cmd", "codex", &UserVars::new());
    let first = adapter.observe_pane_output("1", &sample("Allow command? [y/n]"));
    assert!(first.iter().any(|event| matches!(event, AgentEvent::ApprovalRequired { .. })));
    assert_eq!(adapter.observe_pane_output("1", &sample("Allow command? [y/n]")), vec![]);
}

#[test]
fn a_message_is_reported_once_and_silences_text() {
    let mut adapter = CodexAdapter::default();
    let message = sample(r#"{"method":"turn/started","params":{}}"#);
    assert!(!adapter.observe_pane_output("1", &message).is_empty());
    assert_eq!(adapter.observe_pane_output("1", &message), vec![]);
    assert_eq!(adapter.observe_pane_output("1", &sample("Allow command? [y/n]")), vec![]);
    let next = sample(r#"{"method":"turn/completed","params":{"turn":{"status":"completed"}}}"#);
    adapter.observe_pane_output("1", &next);
    assert_eq!(adapter.observe_pane_output("1", &sample("Allow command? [y/n]")), vec![]);
}

#[test]
fn a_message_needs_a_brace() {
    for text in ["", "method", "\u{1b}[31m\"method\":\"turn/started\"}", "a\r\nb}\n"] {
        assert_eq!(extract_app_server_notification(text), None, "{text:?}");
    }
}

#[test]
fn the_last_prompt_near_the_end_counts() {
    let last = "Allow tool? \u{1b}[1m[y/n]\u{1b}[0m";
    let early = format!("Allow command? [y/n]\n{last}\n{}", "x\n".repeat(16));
    assert_eq!(extract_approval_prompt(&early).as_deref(), Some("Allow tool? [y/n]"));
    let late = format!("{last}\n{}", "x\n".repeat(18));
    assert_eq!(extract_approval_prompt(&late), None);
    let long = extract_approval_prompt(&format!("approve? {}", "é".repeat(300))).expect("prompt");
    assert_eq!(long.chars().count(), 160);
}

#[test]
fn statuses_are_read_in_any_form() {
    for (text, status) in [
        (" \tIDLE\n", SessionStatus::Idle),
        ("\u{3000}LoAdInG", SessionStatus::Loading),
        ("Need_Approve ", SessionStatus::NeedApprove),
    ] {
        assert_eq!(SessionStatus::parse_storage(text), Some(status));
    }
    assert_eq!(
        SessionStatusSource::parse_storage(" Heuristic "),
        Some(SessionStatusSource::Heuristic)
    );
    assert_eq!(
        SessionStatusConfidence::parse_storage("\nHIGH"),
        Some(SessionStatusConfidence::High)
    );
}

#[test]
fn the_same_status_again_is_silent() {
    let mut manager = SessionStatusManager::default();
    manager.register_session("a", snapshot(SessionStatus::Idle));
    manager.register_session("b", snapshot(SessionStatus::Idle));
    assert!(manager.update_status("a", snapshot(SessionStatus::Loading)).expect("update").is_some());
    assert!(manager.update_status("a", snapshot(SessionStatus::Loading)).expect("update").is_none());
    assert_eq!(manager.snapshot("b"), Some(&snapshot(SessionStatus::Idle)));
}

#[test]
fn a_task_runs_its_course() {
    let mut manager = SessionStatusManager::default();
    manager.register_session("a", snapshot(SessionStatus::Idle));
    let provider = || "codex".to_string();
    for (event, status) in [
        (AgentEvent::TaskStarted { provider: provider() }, SessionStatus::Loading),
        (AgentEvent::TaskOutput { provider: provider() }, SessionStatus::Running),
        (
            AgentEvent::ApprovalRequired { provider: provider(), detail: None },
            SessionStatus::NeedApprove,
        ),
        (
            AgentEvent::ApprovalResolved { provider: provider(), approved: true },
            SessionStatus::Running,
        ),
        (AgentEvent::TaskCompleted { provider: provider() }, SessionStatus::Done),
    ] {
        manager
            .apply_agent_event(
                "a",
                &event,
                SessionStatusSource::Structured,
                SessionStatusConfidence::High,
            )
            .expect("allowed");
        assert_eq!(manager.snapshot("a").map(|s| s.status), Some(status));
    }
}

#[test]
fn writing_is_arranged_only_for_a_change() {
    let mut bridge = AgentStatusBridge::new();
    let binding = Some(("p".to_string(), "s".to_string()));
    let provider = || "codex".to_string();
    let mut take = |event| {
        bridge.process_agent_events_for_pane(
            &binding,
            Some(snapshot(SessionStatus::Idle)),
            &vec![event],
            SessionStatusSource::Structured,
            SessionStatusConfidence::High,
        )
    };
    assert!(!take(AgentEvent::TaskCompleted { provider: provider() }));
    assert!(take(AgentEvent::TaskStarted { provider: provider() }));
    assert!(!take(AgentEvent::TaskOutput { provider: provider() }));
}

#[test]
fn rejected_changes_are_handed_out_once() {
    let mut bridge = AgentStatusBridge::new();
    let provider = || "codex".to_string();
    bridge.process_agent_events_for_pane(
        &Some(("p".to_string(), "s".to_string())),
        Some(snapshot(SessionStatus::Done)),
        &vec![
            AgentEvent::TaskStarted { provider: provider() },
            AgentEvent::ApprovalRequired { provider: provider(), detail: None },
        ],
        SessionStatusSource::Structured,
        SessionStatusConfidence::High,
    );
    let messages: Vec<String> = bridge.take_rejected().iter().map(|e| e.message()).collect();
    assert_eq!(
        messages,
        vec![
            "invalid session status transition for p/s: done -> loading".to_string(),
            "invalid session status transition for p/s: done -> need_approve".to_string(),
        ]
    );
    assert!(bridge.take_rejected().is_empty());
    assert!(bridge.pending.is_empty());
}

#[test]
fn variables_lead_to_events_or_to_a_channel() {
    let mut channels = CodexChannels::new();
    let mut registry = AgentAdapterRegistry::with_defaults();
    let none = UserVars::new();
    let (action, events) = observe_user_var_signal(
        &mut channels,
        &mut registry,
        1,
        "kaku_last_cmd",
        "codex",
        &none,
    );
    assert_eq!(action, ChannelAction::Keep);
    assert_eq!(events.len(), 2);
    let (action, events) = observe_user_var_signal(
        &mut channels,
        &mut registry,
        1,
        "kaku_codex_app_server_ws",
        "ws://localhost:1",
        &none,
    );
    assert_eq!(
        action,
        ChannelAction::Open { url: "ws://localhost:1".to_string(), token: None }
    );
    assert_eq!(events, vec![]);
    let (_, events) = observe_user_var_signal(
        &mut channels,
        &mut registry,
        1,
        "kaku_last_exit_code",
        "0",
        &vars(&[("kaku_last_cmd", "codex")]),
    );
    assert_eq!(events, vec![]);
}

#[test]
fn listing_keeps_ties_in_order() {
    let session = |id: &str| SessionEntry {
        id: id.to_string(),
        title: id.to_string(),
        status: "idle".to_string(),
        codex_thread_id: String::new(),
        status_source: "structured".to_string(),
        status_confidence: "high".to_string(),
        status_reason: String::new(),
        pinned: id == "b",
        updated_at: "same".to_string(),
    };
    let project = ProjectEntry {
        id: "p".to_string(),
        name: "p".to_string(),
        root_path: "/p".to_string(),
        created_at: String::new(),
        last_active_at: String::new(),
    };
    let file = SessionsFile { version: 1, sessions: vec![session("c"), session("b"), session("a")] };
    let now = Timestamp { seconds: 0, nanos: 0 };
    let (shown, writes) = load_workspace_sidebar_projects(vec![project], vec![Some(file)], now);
    let ids: Vec<&str> = shown[0].sessions.iter().map(|s| s.id.as_str()).collect();
    assert_eq!(ids, vec!["c", "b", "a"]);
    assert_eq!(shown[0].sessions.iter().filter(|s| s.pinned).count(), 1);
    assert!(writes.is_empty());
}

#[test]
fn texts_and_paths_are_ordered() {
    assert!(is_before("a", "b") && is_before("b", "ba") && is_before("a", "ba"));
    assert!(!is_before("a", "a") && !is_before("b", "a"));
    assert!(is_under("/a", "/a"));
    let deep = join_path("/a/b", "c");
    assert!(is_under(&deep, "/a/b") && is_under("/a/b", "/a") && is_under(&deep, "/a"));
    assert!(!is_under("/ab", "/a"));
}
