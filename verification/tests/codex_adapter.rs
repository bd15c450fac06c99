use kaku::agent_status::adapters::codex::CodexAdapter;
use kaku::agent_status::adapters::codex_output::{
    extract_app_server_notification, extract_approval_prompt,
};
use kaku::agent_status::adapters::{AgentAdapter, AgentPaneOutputSample, UserVars};
use kaku::agent_status::codex_context::is_codex_like_command;
use kaku::agent_status::events::AgentEvent;
use kaku::workspace::AgentType;

fn other_agent_command() -> String {
    format!("{:?} --print", AgentType::Claude).to_ascii_lowercase()
}

fn codex_sample(tail_text: &str) -> AgentPaneOutputSample {
    AgentPaneOutputSample {
        tail_text: tail_text.to_string(),
        current_command: Some("codex".to_string()),
        foreground_process_name: Some("codex".to_string()),
    }
}

fn non_codex_sample(tail_text: &str) -> AgentPaneOutputSample {
    AgentPaneOutputSample {
        tail_text: tail_text.to_string(),
        current_command: Some("c".to_string()),
        foreground_process_name: Some("tmux".to_string()),
    }
}

#[test]
fn detects_codex_command_variants() {
    assert!(is_codex_like_command("codex run"));
    assert!(is_codex_like_command("/usr/local/bin/codex run"));
    assert!(is_codex_like_command("FOO=bar codex run"));
    assert!(is_codex_like_command("command codex run"));
    assert!(is_codex_like_command("builtin codex run"));
    assert!(is_codex_like_command("nocorrect codex run"));
    assert!(is_codex_like_command("time codex run"));
    assert!(is_codex_like_command("env FOO=bar codex run"));
    assert!(!is_codex_like_command(&other_agent_command()));
    assert!(!is_codex_like_command("echo codex"));
    assert!(!is_codex_like_command(""));
}

#[test]
fn emits_started_and_completed_for_codex_command() {
    let mut adapter = CodexAdapter::default();
    let started =
        adapter.observe_user_var("1", "kaku_last_cmd", "codex --help", &UserVars::new());
    assert_eq!(
        started,
        vec![
            AgentEvent::TaskStarted {
                provider: "codex".to_string()
            },
            AgentEvent::TaskOutput {
                provider: "codex".to_string()
            }
        ]
    );

    let mut vars = UserVars::new();
    vars.insert("kaku_last_cmd".to_string(), "codex --help".to_string());
    let completed = adapter.observe_user_var("1", "kaku_last_exit_code", "0", &vars);
    assert_eq!(
        completed,
        vec![AgentEvent::TaskCompleted {
            provider: "codex".to_string()
        }]
    );
}

#[test]
fn wezterm_prog_drives_started_when_kaku_last_cmd_is_missing() {
    let mut adapter = CodexAdapter::default();
    let started =
        adapter.observe_user_var("1", "WEZTERM_PROG", "codex --help", &UserVars::new());
    assert_eq!(
        started,
        vec![
            AgentEvent::TaskStarted {
                provider: "codex".to_string()
            },
            AgentEvent::TaskOutput {
                provider: "codex".to_string()
            }
        ]
    );

    let completed = adapter.observe_user_var("1", "kaku_last_exit_code", "0", &UserVars::new());
    assert_eq!(
        completed,
        vec![AgentEvent::TaskCompleted {
            provider: "codex".to_string()
        }]
    );
}

#[test]
fn wezterm_prog_empty_completes_active_codex_turn() {
    let mut adapter = CodexAdapter::default();
    let _ = adapter.observe_user_var("1", "WEZTERM_PROG", "codex run", &UserVars::new());

    let completed = adapter.observe_user_var("1", "WEZTERM_PROG", "", &UserVars::new());
    assert_eq!(
        completed,
        vec![AgentEvent::TaskCompleted {
            provider: "codex".to_string(),
        }]
    );
}

#[test]
fn wezterm_prog_does_not_duplicate_when_kaku_last_cmd_exists() {
    let mut adapter = CodexAdapter::default();
    let _ = adapter.observe_user_var("1", "kaku_last_cmd", "codex --help", &UserVars::new());
    let mut vars = UserVars::new();
    vars.insert("kaku_last_cmd".to_string(), "codex --help".to_string());

    let wezterm = adapter.observe_user_var("1", "WEZTERM_PROG", "codex --help", &vars);
    assert!(wezterm.is_empty());
}

#[test]
fn emits_failed_for_nonzero_codex_exit() {
    let mut adapter = CodexAdapter::default();
    let _ = adapter.observe_user_var("1", "kaku_last_cmd", "codex", &UserVars::new());
    let mut vars = UserVars::new();
    vars.insert("kaku_last_cmd".to_string(), "codex".to_string());
    let failed = adapter.observe_user_var("1", "kaku_last_exit_code", "130", &vars);
    assert_eq!(failed.len(), 1);
    match &failed[0] {
        AgentEvent::TaskFailed { reason, .. } => {
            assert_eq!(reason.as_deref(), Some("codex exited with status 130"));
        }
        other => panic!("unexpected event: {:?}", other),
    }
}

#[test]
fn ignores_duplicate_exit_signal() {
    let mut adapter = CodexAdapter::default();
    let _ = adapter.observe_user_var("1", "kaku_last_cmd", "codex", &UserVars::new());
    let mut vars = UserVars::new();
    vars.insert("kaku_last_cmd".to_string(), "codex".to_string());
    let first = adapter.observe_user_var("1", "kaku_last_exit_code", "0", &vars);
    let second = adapter.observe_user_var("1", "kaku_last_exit_code", "0", &vars);
    assert_eq!(first.len(), 1);
    assert!(second.is_empty());
}

#[test]
fn repeated_same_command_still_emits_completion() {
    let mut adapter = CodexAdapter::default();
    let _ = adapter.observe_user_var("1", "kaku_last_cmd", "codex", &UserVars::new());
    let mut vars = UserVars::new();
    vars.insert("kaku_last_cmd".to_string(), "codex".to_string());
    let first = adapter.observe_user_var("1", "kaku_last_exit_code", "0", &vars);
    assert_eq!(first.len(), 1);

    let _ = adapter.observe_user_var("1", "kaku_last_cmd", "codex", &UserVars::new());
    let second = adapter.observe_user_var("1", "kaku_last_exit_code", "0", &vars);
    assert_eq!(second.len(), 1);
}

#[test]
fn extracts_approval_prompt_line() {
    let text = "step 1\nApprove this action? [y/N]\n";
    assert_eq!(
        extract_approval_prompt(text).as_deref(),
        Some("Approve this action? [y/N]")
    );
}

#[test]
fn emits_approval_required_and_resolved_from_output() {
    let mut adapter = CodexAdapter::default();
    let _ = adapter.observe_user_var("1", "kaku_last_cmd", "codex", &UserVars::new());

    let required =
        adapter.observe_pane_output("1", &codex_sample("Approve command execution? [y/N]"));
    assert_eq!(
        required,
        vec![AgentEvent::ApprovalRequired {
            provider: "codex".to_string(),
            detail: Some("Approve command execution? [y/N]".to_string()),
        }]
    );

    let resolved = adapter.observe_pane_output("1", &codex_sample("running task..."));
    assert_eq!(
        resolved,
        vec![AgentEvent::ApprovalResolved {
            provider: "codex".to_string(),
            approved: true,
        }]
    );
}

#[test]
fn extracts_approval_prompt_without_yes_no_hint() {
    let text = "Please review\nApprove and continue?\n";
    assert_eq!(
        extract_approval_prompt(text).as_deref(),
        Some("Approve and continue?")
    );
}

#[test]
fn extracts_app_server_notification_line() {
    let payload = r#"{"id":1,"method":"thread/start","params":{}}"#;
    let notification = r#"{"method":"turn/started","params":{"threadId":"t1","turn":{"id":"x","status":"inProgress","items":[],"error":null}}}"#;
    let text = format!("noise\n{}\n{}\n", payload, notification);
    let extracted =
        extract_app_server_notification(text.as_str()).expect("must extract notification");
    assert_eq!(extracted.method, "turn/started");
}

#[test]
fn extracts_app_server_notification_with_ansi_prefix() {
    let notification =
        "\u{1b}[32m[app]\u{1b}[0m {\"method\":\"thread/status/changed\",\"params\":{\"status\":{\"type\":\"active\",\"activeFlags\":[\"waitingOnApproval\"]}}}";
    let extracted = extract_app_server_notification(notification)
        .expect("must extract notification with prefix");
    assert_eq!(extracted.method, "thread/status/changed");
}

#[test]
fn extracts_app_server_request_with_id() {
    let request = r#"{"id":42,"method":"item/commandExecution/requestApproval","params":{"command":"git push","reason":"network access"}}"#;
    let extracted = extract_app_server_notification(request).expect("must extract request");
    assert_eq!(extracted.method, "item/commandExecution/requestApproval");
    assert!(extracted.is_request);
}

#[test]
fn emits_structured_events_from_app_server_turn_lifecycle() {
    let mut adapter = CodexAdapter::default();
    let _ = adapter.observe_user_var("1", "kaku_last_cmd", "codex", &UserVars::new());

    let started = adapter.observe_pane_output(
        "1",
        &codex_sample(
            r#"{"method":"turn/started","params":{"threadId":"t1","turn":{"id":"x","status":"inProgress","items":[],"error":null}}}"#,
        ),
    );
    assert_eq!(
        started,
        vec![
            AgentEvent::TaskStarted {
                provider: "codex".to_string()
            },
            AgentEvent::TaskOutput {
                provider: "codex".to_string()
            }
        ]
    );

    let completed = adapter.observe_pane_output(
        "1",
        &codex_sample(
            r#"{"method":"turn/completed","params":{"threadId":"t1","turn":{"id":"x","status":"completed","items":[],"error":null}}}"#,
        ),
    );
    assert_eq!(
        completed,
        vec![AgentEvent::TaskCompleted {
            provider: "codex".to_string()
        }]
    );
}

#[test]
fn emits_approval_events_from_app_server_active_flags() {
    let mut adapter = CodexAdapter::default();
    let _ = adapter.observe_user_var("1", "kaku_last_cmd", "codex", &UserVars::new());

    let _ = adapter.observe_pane_output(
        "1",
        &codex_sample(
            r#"{"method":"turn/started","params":{"threadId":"t1","turn":{"id":"x","status":"inProgress","items":[],"error":null}}}"#,
        ),
    );

    let required = adapter.observe_pane_output(
        "1",
        &codex_sample(
            r#"{"method":"thread/status/changed","params":{"threadId":"t1","status":{"type":"active","activeFlags":["waitingOnApproval"]}}}"#,
        ),
    );
    assert_eq!(
        required,
        vec![AgentEvent::ApprovalRequired {
            provider: "codex".to_string(),
            detail: Some("waitingOnApproval".to_string()),
        }]
    );

    let resolved = adapter.observe_pane_output(
        "1",
        &codex_sample(
            r#"{"method":"thread/status/changed","params":{"threadId":"t1","status":{"type":"active","activeFlags":[]}}}"#,
        ),
    );
    assert_eq!(
        resolved,
        vec![
            AgentEvent::ApprovalResolved {
                provider: "codex".to_string(),
                approved: true,
            },
            AgentEvent::TaskOutput {
                provider: "codex".to_string(),
            }
        ]
    );
}

#[test]
fn emits_approval_events_from_app_server_request_methods() {
    let mut adapter = CodexAdapter::default();
    let _ = adapter.observe_user_var("1", "kaku_last_cmd", "codex", &UserVars::new());

    let required = adapter.observe_pane_output(
        "1",
        &codex_sample(
            r#"{"id":"r1","method":"item/commandExecution/requestApproval","params":{"threadId":"t1","turnId":"u1","itemId":"i1","command":"git push","reason":"network access"}}"#,
        ),
    );
    assert_eq!(
        required,
        vec![
            AgentEvent::TaskStarted {
                provider: "codex".to_string(),
            },
            AgentEvent::TaskOutput {
                provider: "codex".to_string(),
            },
            AgentEvent::ApprovalRequired {
                provider: "codex".to_string(),
                detail: Some("git push".to_string()),
            },
        ]
    );
}

#[test]
fn ignores_duplicate_app_server_notification() {
    let mut adapter = CodexAdapter::default();
    let _ = adapter.observe_user_var("1", "kaku_last_cmd", "codex", &UserVars::new());
    let payload = r#"{"method":"turn/started","params":{"threadId":"t1","turn":{"id":"x","status":"inProgress","items":[],"error":null}}}"#;
    let first = adapter.observe_pane_output("1", &codex_sample(payload));
    let second = adapter.observe_pane_output("1", &codex_sample(payload));
    assert!(!first.is_empty());
    assert!(second.is_empty());
}

#[test]
fn maps_turn_failed_to_task_failed_reason() {
    let mut adapter = CodexAdapter::default();
    let _ = adapter.observe_user_var("1", "kaku_last_cmd", "codex", &UserVars::new());

    let failed = adapter.observe_pane_output(
        "1",
        &codex_sample(
            r#"{"method":"turn/completed","params":{"threadId":"t1","turn":{"id":"x","status":"failed","items":[],"error":{"message":"boom"}}}}"#,
        ),
    );
    assert_eq!(
        failed,
        vec![AgentEvent::TaskFailed {
            provider: "codex".to_string(),
            reason: Some("boom".to_string()),
        }]
    );
}

#[test]
fn unknown_json_method_does_not_block_prompt_heuristic() {
    let mut adapter = CodexAdapter::default();
    let _ = adapter.observe_user_var("1", "kaku_last_cmd", "codex", &UserVars::new());

    let tail = r#"{"method":"custom/not-app-server","params":{"x":1}}
Approve command execution? [y/N]"#;
    let events = adapter.observe_pane_output("1", &codex_sample(tail));
    assert_eq!(
        events,
        vec![AgentEvent::ApprovalRequired {
            provider: "codex".to_string(),
            detail: Some("Approve command execution? [y/N]".to_string()),
        }]
    );
}

#[test]
fn fallback_output_can_drive_running_and_completion_without_codex_cmd_match() {
    let mut adapter = CodexAdapter::default();
    let _ = adapter.observe_user_var("1", "kaku_last_cmd", "c", &UserVars::new());

    let running = adapter.observe_pane_output("1", &codex_sample("thinking..."));
    assert_eq!(
        running,
        vec![
            AgentEvent::TaskStarted {
                provider: "codex".to_string(),
            },
            AgentEvent::TaskOutput {
                provider: "codex".to_string(),
            },
        ]
    );

    let mut vars = UserVars::new();
    vars.insert("kaku_last_cmd".to_string(), "c".to_string());
    let completed = adapter.observe_user_var("1", "kaku_last_exit_code", "0", &vars);
    assert_eq!(
        completed,
        vec![AgentEvent::TaskCompleted {
            provider: "codex".to_string(),
        }]
    );
}

#[test]
fn app_server_stream_suppresses_text_fallback_churn() {
    let mut adapter = CodexAdapter::default();
    let _ = adapter.observe_user_var("1", "kaku_last_cmd", "codex", &UserVars::new());
    let _ = adapter.observe_pane_output(
        "1",
        &codex_sample(
            r#"{"method":"turn/started","params":{"threadId":"t1","turn":{"id":"x","status":"inProgress","items":[],"error":null}}}"#,
        ),
    );

    let events = adapter.observe_pane_output("1", &codex_sample("still working..."));
    assert!(events.is_empty());
}

#[test]
fn explicit_non_codex_context_completes_hard_context_turn() {
    let mut adapter = CodexAdapter::default();
    let _ = adapter.observe_user_var("1", "kaku_last_cmd", "codex", &UserVars::new());
    let _ = adapter.observe_pane_output("1", &codex_sample("working..."));

    let completed = adapter.observe_pane_output("1", &non_codex_sample("$ "));
    assert_eq!(
        completed,
        vec![AgentEvent::TaskCompleted {
            provider: "codex".to_string(),
        }]
    );
}

#[test]
fn prompt_from_idle_emits_running_then_need_approve() {
    let mut adapter = CodexAdapter::default();
    let _ = adapter.observe_user_var("1", "kaku_last_cmd", "c", &UserVars::new());

    let events = adapter.observe_pane_output("1", &codex_sample("Approve this action? [y/N]"));
    assert_eq!(
        events,
        vec![
            AgentEvent::TaskStarted {
                provider: "codex".to_string(),
            },
            AgentEvent::TaskOutput {
                provider: "codex".to_string(),
            },
            AgentEvent::ApprovalRequired {
                provider: "codex".to_string(),
                detail: Some("Approve this action? [y/N]".to_string()),
            },
        ]
    );
}

#[test]
fn approval_prompt_bootstraps_context_when_command_and_process_are_ambiguous() {
    let mut adapter = CodexAdapter::default();
    let events =
        adapter.observe_pane_output("1", &non_codex_sample("Approve this action? [y/N]"));
    assert_eq!(
        events,
        vec![
            AgentEvent::TaskStarted {
                provider: "codex".to_string(),
            },
            AgentEvent::TaskOutput {
                provider: "codex".to_string(),
            },
            AgentEvent::ApprovalRequired {
                provider: "codex".to_string(),
                detail: Some("Approve this action? [y/N]".to_string()),
            },
        ]
    );
}

#[test]
fn bootstrapped_approval_context_keeps_emitting_running_without_codex_markers() {
    let mut adapter = CodexAdapter::default();
    let _ = adapter.observe_pane_output("1", &non_codex_sample("Approve this action? [y/N]"));

    let resolved = adapter.observe_pane_output("1", &non_codex_sample("continuing..."));
    assert_eq!(
        resolved,
        vec![AgentEvent::ApprovalResolved {
            provider: "codex".to_string(),
            approved: true,
        }]
    );

    let running = adapter.observe_pane_output("1", &non_codex_sample("still working..."));
    assert_eq!(
        running,
        vec![AgentEvent::TaskOutput {
            provider: "codex".to_string(),
        }]
    );
}
