use chrono::{DateTime, Utc};
use kaku::agent_status::codex_context::{is_codex_like_command, is_codex_process_name};
use kaku::agent_status::events::{SessionStatus, SessionStatusConfidence, SessionStatusSource};
use kaku::sidebar::action::{sidebar_action_needs_pointer_position, SidebarAction};
use kaku::sidebar::model::{SessionEntry, WorkspaceSidebarProject, WorkspaceSidebarSession};
use kaku::sidebar::pick::{pick_project_for_cwd, pick_session_for_inferred_binding};
use kaku::sidebar::status::{
    is_stale_transient_session_status, normalize_transient_session_status,
    parse_session_status_confidence, parse_session_status_source, sidebar_status_is_animating,
    sidebar_status_signal_tag, sidebar_status_spinner_frame, SidebarLineTone,
    SidebarSessionStatus, Timestamp,
};
use kaku::sidebar::store::sidebar_next_session_title;

fn timestamp(moment: DateTime<Utc>) -> Timestamp {
    Timestamp {
        seconds: moment.timestamp(),
        nanos: moment.timestamp_subsec_nanos(),
    }
}

#[test]
fn parses_session_status_aliases() {
    assert_eq!(
        SidebarSessionStatus::parse("idle"),
        SidebarSessionStatus::Idle
    );
    assert_eq!(
        SidebarSessionStatus::parse("need_approve"),
        SidebarSessionStatus::NeedApprove
    );
    assert_eq!(
        SidebarSessionStatus::parse("need-approve"),
        SidebarSessionStatus::NeedApprove
    );
    assert_eq!(
        SidebarSessionStatus::parse("needapprove"),
        SidebarSessionStatus::NeedApprove
    );
    assert_eq!(
        SidebarSessionStatus::parse("unknown-status"),
        SidebarSessionStatus::Unknown
    );
}

#[test]
fn maps_status_to_badge_and_tone() {
    let cases = [
        (SidebarSessionStatus::Idle, "IDLE", SidebarLineTone::Muted),
        (SidebarSessionStatus::Loading, "PREP", SidebarLineTone::Info),
        (
            SidebarSessionStatus::NeedApprove,
            "APPROVAL",
            SidebarLineTone::Warning,
        ),
        (
            SidebarSessionStatus::Running,
            "RUNNING",
            SidebarLineTone::Info,
        ),
        (SidebarSessionStatus::Done, "DONE", SidebarLineTone::Success),
        (
            SidebarSessionStatus::Error,
            "ERROR",
            SidebarLineTone::Danger,
        ),
        (
            SidebarSessionStatus::Unknown,
            "UNKNOWN",
            SidebarLineTone::Muted,
        ),
    ];

    for (status, expected_badge, expected_tone) in cases {
        assert_eq!(status.badge(), expected_badge);
        assert_eq!(status.tone(), expected_tone);
    }
}

#[test]
fn parses_status_source_and_confidence_with_fallbacks() {
    assert_eq!(
        parse_session_status_source("structured"),
        SessionStatusSource::Structured
    );
    assert_eq!(
        parse_session_status_source("heuristic"),
        SessionStatusSource::Heuristic
    );
    assert_eq!(
        parse_session_status_source("unknown"),
        SessionStatusSource::Structured
    );
    assert_eq!(
        parse_session_status_confidence("high"),
        SessionStatusConfidence::High
    );
    assert_eq!(
        parse_session_status_confidence("low"),
        SessionStatusConfidence::Low
    );
    assert_eq!(
        parse_session_status_confidence("unknown"),
        SessionStatusConfidence::Low
    );
}

#[test]
fn maps_source_and_confidence_to_signal_tag() {
    assert_eq!(
        sidebar_status_signal_tag(
            SessionStatusSource::Structured,
            SessionStatusConfidence::High,
        ),
        "S+"
    );
    assert_eq!(
        sidebar_status_signal_tag(
            SessionStatusSource::Structured,
            SessionStatusConfidence::Low,
        ),
        "S?"
    );
    assert_eq!(
        sidebar_status_signal_tag(
            SessionStatusSource::Heuristic,
            SessionStatusConfidence::High,
        ),
        "H+"
    );
    assert_eq!(
        sidebar_status_signal_tag(SessionStatusSource::Heuristic, SessionStatusConfidence::Low,),
        "H?"
    );
}

#[test]
fn running_and_loading_statuses_animate() {
    assert!(sidebar_status_is_animating(SidebarSessionStatus::Loading));
    assert!(!sidebar_status_is_animating(SidebarSessionStatus::Running));
    assert!(!sidebar_status_is_animating(
        SidebarSessionStatus::NeedApprove
    ));
    assert!(!sidebar_status_is_animating(SidebarSessionStatus::Done));
}

#[test]
fn spinner_frame_cycles_in_expected_order() {
    assert_eq!(
        sidebar_status_spinner_frame(0),
        '-'
    );
    assert_eq!(
        sidebar_status_spinner_frame(120),
        '\\'
    );
    assert_eq!(
        sidebar_status_spinner_frame(240),
        '|'
    );
    assert_eq!(
        sidebar_status_spinner_frame(360),
        '/'
    );
    assert_eq!(
        sidebar_status_spinner_frame(480),
        '-'
    );
}

#[test]
fn next_session_title_skips_existing_suffix() {
    let existing = vec![
        SessionEntry {
            id: "sess_1".to_string(),
            title: "session-1".to_string(),
            status: SessionStatus::Idle.as_storage_str().to_string(),
            codex_thread_id: String::new(),
            status_source: SessionStatusSource::Heuristic.as_storage_str().to_string(),
            status_confidence: SessionStatusConfidence::Low.as_storage_str().to_string(),
            status_reason: String::new(),
            pinned: false,
            updated_at: String::new(),
        },
        SessionEntry {
            id: "sess_2".to_string(),
            title: "session-2".to_string(),
            status: SessionStatus::Idle.as_storage_str().to_string(),
            codex_thread_id: String::new(),
            status_source: SessionStatusSource::Heuristic.as_storage_str().to_string(),
            status_confidence: SessionStatusConfidence::Low.as_storage_str().to_string(),
            status_reason: String::new(),
            pinned: false,
            updated_at: String::new(),
        },
    ];

    assert_eq!(sidebar_next_session_title(&existing), "session-3");
}

#[test]
fn open_menu_action_requires_pointer_context() {
    let action = SidebarAction::OpenSessionContextMenu {
        project_id: "proj".to_string(),
        session_id: "sess".to_string(),
    };
    assert!(sidebar_action_needs_pointer_position(&action));
    assert!(sidebar_action_needs_pointer_position(
        &SidebarAction::OpenProjectContextMenu {
            project_id: "proj".to_string()
        }
    ));
    assert!(sidebar_action_needs_pointer_position(
        &SidebarAction::OpenSnippetContextMenu {
            project_id: "proj".to_string(),
            snippet_id: "snip".to_string(),
        }
    ));
    assert!(!sidebar_action_needs_pointer_position(
        &SidebarAction::CreateProject
    ));
}

#[test]
fn picks_longest_matching_project_root_for_cwd() {
    let projects = vec![
        WorkspaceSidebarProject {
            id: "p1".to_string(),
            name: "p1".to_string(),
            root_path: "/Users/mlhiter/personal-projects".to_string(),
            sessions: Vec::new(),
        },
        WorkspaceSidebarProject {
            id: "p2".to_string(),
            name: "p2".to_string(),
            root_path: "/Users/mlhiter/personal-projects/Kaku".to_string(),
            sessions: Vec::new(),
        },
    ];

    let picked = pick_project_for_cwd(
        &projects,
        "/Users/mlhiter/personal-projects/Kaku/kaku-gui/src",
    )
    .expect("must pick project");
    assert_eq!(picked.id, "p2");
}

#[test]
fn picks_session_by_tab_title_from_unbound_candidates() {
    let project = WorkspaceSidebarProject {
        id: "proj".to_string(),
        name: "proj".to_string(),
        root_path: "/tmp/proj".to_string(),
        sessions: vec![
            WorkspaceSidebarSession {
                id: "sess-1".to_string(),
                title: "session-1".to_string(),
                status: SessionStatus::Idle.as_storage_str().to_string(),
                status_source: SessionStatusSource::Heuristic.as_storage_str().to_string(),
                status_confidence: SessionStatusConfidence::Low.as_storage_str().to_string(),
                status_reason: String::new(),
                pinned: false,
                updated_at: "2026-04-03T10:00:00Z".to_string(),
            },
            WorkspaceSidebarSession {
                id: "sess-2".to_string(),
                title: "session-2".to_string(),
                status: SessionStatus::Idle.as_storage_str().to_string(),
                status_source: SessionStatusSource::Heuristic.as_storage_str().to_string(),
                status_confidence: SessionStatusConfidence::Low.as_storage_str().to_string(),
                status_reason: String::new(),
                pinned: false,
                updated_at: "2026-04-03T10:01:00Z".to_string(),
            },
        ],
    };

    let bound = vec!["proj::sess-1".to_string()];
    let picked = pick_session_for_inferred_binding(&project, &bound, "session-2")
        .expect("must pick session");
    assert_eq!(picked.id, "sess-2");
}

#[test]
fn falls_back_to_most_recent_when_title_not_matched() {
    let project = WorkspaceSidebarProject {
        id: "proj".to_string(),
        name: "proj".to_string(),
        root_path: "/tmp/proj".to_string(),
        sessions: vec![
            WorkspaceSidebarSession {
                id: "sess-old".to_string(),
                title: "old".to_string(),
                status: SessionStatus::Idle.as_storage_str().to_string(),
                status_source: SessionStatusSource::Heuristic.as_storage_str().to_string(),
                status_confidence: SessionStatusConfidence::Low.as_storage_str().to_string(),
                status_reason: String::new(),
                pinned: false,
                updated_at: "2026-04-03T10:00:00Z".to_string(),
            },
            WorkspaceSidebarSession {
                id: "sess-new".to_string(),
                title: "new".to_string(),
                status: SessionStatus::Idle.as_storage_str().to_string(),
                status_source: SessionStatusSource::Heuristic.as_storage_str().to_string(),
                status_confidence: SessionStatusConfidence::Low.as_storage_str().to_string(),
                status_reason: String::new(),
                pinned: false,
                updated_at: "2026-04-03T10:02:00Z".to_string(),
            },
        ],
    };

    let picked = pick_session_for_inferred_binding(&project, &Vec::new(), "unknown")
        .expect("must pick session");
    assert_eq!(picked.id, "sess-new");
}

#[test]
fn skips_stale_transient_session_when_inferring_binding() {
    let project = WorkspaceSidebarProject {
        id: "proj".to_string(),
        name: "proj".to_string(),
        root_path: "/tmp/proj".to_string(),
        sessions: vec![
            WorkspaceSidebarSession {
                id: "sess-stale-running".to_string(),
                title: "old-running".to_string(),
                status: SessionStatus::Running.as_storage_str().to_string(),
                status_source: SessionStatusSource::Heuristic.as_storage_str().to_string(),
                status_confidence: SessionStatusConfidence::Low.as_storage_str().to_string(),
                status_reason: String::new(),
                pinned: false,
                updated_at: "2025-01-01T00:00:00Z".to_string(),
            },
            WorkspaceSidebarSession {
                id: "sess-idle".to_string(),
                title: "idle".to_string(),
                status: SessionStatus::Idle.as_storage_str().to_string(),
                status_source: SessionStatusSource::Heuristic.as_storage_str().to_string(),
                status_confidence: SessionStatusConfidence::Low.as_storage_str().to_string(),
                status_reason: String::new(),
                pinned: false,
                updated_at: "2026-04-03T10:02:00Z".to_string(),
            },
        ],
    };

    let picked = pick_session_for_inferred_binding(&project, &Vec::new(), "unknown")
        .expect("must pick session");
    assert_eq!(picked.id, "sess-idle");
}

#[test]
fn normalizes_stale_transient_status_to_idle() {
    let normalized = normalize_transient_session_status(
        SessionStatus::NeedApprove.as_storage_str(),
        "2024-01-01T00:00:00Z",
        timestamp(Utc::now()),
    );
    assert_eq!(normalized, SessionStatus::Idle.as_storage_str());
}

#[test]
fn preserves_recent_transient_status() {
    let now = Utc::now();
    let updated_recent = (now - chrono::Duration::minutes(5)).to_rfc3339();
    assert!(!is_stale_transient_session_status(
        SessionStatus::Running.as_storage_str(),
        updated_recent.as_str(),
        timestamp(now),
    ));
}

#[test]
fn detects_codex_context_helpers() {
    assert!(is_codex_like_command("codex run"));
    assert!(is_codex_like_command("env A=1 codex run"));
    assert!(!is_codex_like_command("echo codex"));
    assert!(is_codex_process_name("codex"));
    assert!(is_codex_process_name("/usr/local/bin/codex"));
    assert!(!is_codex_process_name("zsh"));
}

#[test]
fn preserves_structured_high_confidence_transient_status() {
    let now = Utc::now();
    let normalized = normalize_transient_session_status(
        SessionStatus::Running.as_storage_str(),
        now.to_rfc3339().as_str(),
        timestamp(now),
    );
    assert_eq!(normalized, SessionStatus::Running.as_storage_str());
}
