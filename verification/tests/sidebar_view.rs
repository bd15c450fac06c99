use kaku::agent_status::adapters::UserVars;
use kaku::agent_status::events::{SessionStatus, SessionStatusConfidence, SessionStatusSource};
use kaku::agent_status::manager::SessionStatusSnapshot;
use kaku::sidebar::action::{sidebar_action_is_inert, SidebarAction};
use kaku::sidebar::bindings::{ActivateStep, OpenRequest, PaneBinding, TabBindings};
use kaku::sidebar::context_menu::{
    max_columns, sidebar_open_project_context_menu, sidebar_open_session_context_menu,
    sidebar_open_snippet_context_menu, MenuKey, MenuModifiers, MenuPlace, MenuPointer,
    MenuReaction, SidebarContextMenuItem, SidebarContextMenuModal, SidebarContextMenuTone,
};
use kaku::sidebar::infer::{sidebar_infer_session_binding_for_tab, InferAction, InferEvent};
use kaku::sidebar::labels::{derive_snippet_name, truncate_middle};
use kaku::sidebar::lines::{
    build_workspace_sidebar_lines, ResourceSection, SidebarLine, SidebarLineBackground,
};
use kaku::sidebar::model::{SnippetEntry, WorkspaceSidebarProject, WorkspaceSidebarSession};
use kaku::sidebar::pick::pick_session_at;
use kaku::sidebar::requests::{
    rename_request, sidebar_request_close_all_unpinned, sidebar_request_close_other_sessions,
    sidebar_request_delete_project, sidebar_request_delete_session,
    sidebar_shortcut_create_session, sidebar_shortcut_delete_current_session,
    sidebar_shortcut_rename_current_session, sidebar_shortcut_toggle_pin_current_session,
    RenameRequest, SidebarCloseAction, SidebarNotice,
};
use kaku::sidebar::status::{
    is_stale_since, is_stale_transient_session_status, reset_snapshot, resets_transient_status,
    sidebar_session_status_snapshot, sidebar_status_source_label, SidebarLineTone, Timestamp,
};
use kaku::sidebar::ui::{
    should_refresh, sidebar_active_project_for_shortcuts, sidebar_create_project_anchor,
    sidebar_line_char_budget, sidebar_rename_project_anchor, sidebar_rename_session_anchor,
    sidebar_snippet_anchor, sidebar_targets, workspace_sidebar_action_at, PaintedRow, PixelRect,
    SidebarUiState, SidebarUiStateFile, UIItem, UIItemType, WorkspaceSidebar,
    WorkspaceSidebarActionHit,
};

// 2026-04-03T12:00:00Z
const NOW: Timestamp = Timestamp { seconds: 1_775_217_600, nanos: 0 };

fn session(id: &str, title: &str, status: &str) -> WorkspaceSidebarSession {
    WorkspaceSidebarSession {
        id: id.to_string(),
        title: title.to_string(),
        status: status.to_string(),
        status_source: "structured".to_string(),
        status_confidence: "high".to_string(),
        status_reason: String::new(),
        pinned: false,
        updated_at: "2026-04-03T11:00:00Z".to_string(),
    }
}

fn project(id: &str, sessions: Vec<WorkspaceSidebarSession>) -> WorkspaceSidebarProject {
    WorkspaceSidebarProject {
        id: id.to_string(),
        name: format!("name-{id}"),
        root_path: format!("/w/{id}"),
        sessions,
    }
}

fn pinned(mut session: WorkspaceSidebarSession) -> WorkspaceSidebarSession {
    session.pinned = true;
    session
}

fn pair(a: &str, b: &str) -> Option<(String, String)> {
    Some((a.to_string(), b.to_string()))
}

fn texts(lines: &[SidebarLine]) -> Vec<&str> {
    lines.iter().map(|l| l.text.as_str()).collect()
}

#[test]
fn long_texts_are_shortened_in_the_middle() {
    assert_eq!(truncate_middle("abcdef", 6), "abcdef");
    assert_eq!(truncate_middle("abcdefg", 6), "a...g");
    assert_eq!(truncate_middle("abcdefghij", 9), "abc...hij");
    assert_eq!(truncate_middle("äöüßéèêë", 7), "äö...êë");
    assert_eq!(truncate_middle("abcd", 3), "...");
    assert_eq!(truncate_middle("abcd", 0), "...");
    assert_eq!(truncate_middle("", 0), "");
    assert_eq!(derive_snippet_name(" \n "), "snippet");
    assert_eq!(derive_snippet_name("a\tb\nc"), "a b c");
    assert_eq!(derive_snippet_name(&"x".repeat(40)), format!("{0}...{0}", "x".repeat(16)));
}

#[test]
fn an_empty_sidebar_says_so() {
    let (lines, animating) = build_workspace_sidebar_lines(&vec![], &None, &None, &None, 40, 0);
    assert!(!animating);
    assert_eq!(
        texts(&lines),
        vec![
            "WORKSPACE",
            "",
            "Projects",
            "  (none)",
            "Resources",
            "  Select a project to manage resources",
            "",
        ]
    );
    assert!(lines[0].is_header && lines[2].is_header && lines[4].is_header);
    assert_eq!(lines[2].trailing_buttons[0].label, "+");
    assert_eq!(lines[2].trailing_buttons[0].action, SidebarAction::CreateProject);
}

#[test]
fn sessions_show_their_status() {
    let mut waiting = session("s2", "ask", "need_approve");
    waiting.status_reason = " git push ".to_string();
    let mut guessed = session("s3", "guess", "running");
    guessed.status_source = "heuristic".to_string();
    guessed.status_confidence = "low".to_string();
    let projects = vec![
        project(
            "p",
            vec![pinned(session("s1", "load", "loading")), waiting, guessed, session("s4", "end", "done")],
        ),
        project("q", vec![]),
    ];
    let (lines, animating) =
        build_workspace_sidebar_lines(&projects, &pair("p", "s4"), &None, &None, 60, 240);
    assert!(animating);
    assert_eq!(
        texts(&lines)[3..13],
        [
            "- name-p",
            "  [📌|PREP|S+||] load",
            "  [·|APPROVAL|S+] ask",
            "      approval required: git push",
            "  [·|RUNNING|H?] guess",
            "      signal: heuristic (low confidence)",
            "  [·|DONE|S+] end",
            "",
            "- name-q",
            "    (no sessions)",
        ]
    );
    let marked: Vec<&str> =
        lines.iter().filter(|l| l.background.is_some()).map(|l| l.text.as_str()).collect();
    assert_eq!(marked, vec!["  [·|DONE|S+] end"]);
    assert_eq!(lines[9].background, Some(SidebarLineBackground::CurrentSession));
    assert_eq!(lines[5].tone, SidebarLineTone::Warning);
    assert_eq!(
        lines[9].action,
        Some(SidebarAction::ActivateSession { project_id: "p".to_string(), session_id: "s4".to_string() })
    );
}

#[test]
fn an_idle_session_shows_its_pin_only() {
    let projects = vec![project(
        "p",
        vec![pinned(session("a", "one", " Idle ")), session("b", "two", "idle"), session("c", "x", "?")],
    )];
    let (lines, animating) = build_workspace_sidebar_lines(&projects, &None, &None, &None, 60, 0);
    assert!(!animating);
    assert_eq!(texts(&lines)[4..7], ["  [📌] one", "  [·] two", "  [·|UNKNOWN|S+] x"]);
}

#[test]
fn an_approval_that_is_guessed_says_so() {
    let mut waiting = session("s", "ask", "need_approve");
    waiting.status_confidence = "low".to_string();
    let (lines, _) =
        build_workspace_sidebar_lines(&vec![project("p", vec![waiting])], &None, &None, &None, 60, 0);
    assert_eq!(
        lines[5].text,
        "      approval maybe required [low confidence]: review and choose allow/deny"
    );
}

#[test]
fn eight_sessions_and_snippets_are_listed() {
    let sessions = (0..10).map(|i| session(&format!("s{i}"), &format!("t{i}"), "idle")).collect();
    let snippets = (0..10)
        .map(|i| SnippetEntry {
            id: format!("n{i}"),
            name: format!("snip{i}"),
            content: String::new(),
            updated_at: String::new(),
        })
        .collect();
    let section = ResourceSection {
        project_id: "p".to_string(),
        project_label: "name-p".to_string(),
        snippets: Ok(snippets),
    };
    let (lines, _) = build_workspace_sidebar_lines(
        &vec![project("p", sessions)],
        &None,
        &Some(section),
        &Some("disk full".to_string()),
        60,
        0,
    );
    let all = texts(&lines);
    assert_eq!(all.iter().filter(|t| t.starts_with("  [")).count(), 8);
    assert_eq!(all.iter().filter(|t| t.starts_with("    > snip")).count(), 8);
    assert!(all.contains(&"Resources (name-p)"));
    assert!(all.contains(&"  Snippets"));
    assert!(all.contains(&"  Env (next)"));
    assert_eq!(all[all.len() - 3..], ["", "Load error", "  disk full"]);
}

#[test]
fn snippets_that_cannot_be_read_are_reported() {
    let section = |snippets| {
        Some(ResourceSection {
            project_id: "p".to_string(),
            project_label: "P".to_string(),
            snippets,
        })
    };
    let (lines, _) =
        build_workspace_sidebar_lines(&vec![], &None, &section(Err("bad".to_string())), &None, 40, 0);
    assert_eq!(lines[5].text, "  Snippets load error: bad");
    let (lines, _) = build_workspace_sidebar_lines(&vec![], &None, &section(Ok(vec![])), &None, 40, 0);
    assert_eq!(lines[5].text, "  Snippets: (none)");
}

#[test]
fn staleness_begins_after_six_hours() {
    let at = |seconds_ago: i64| Some(Timestamp { seconds: NOW.seconds - seconds_ago, nanos: 0 });
    assert!(is_stale_since("running", at(21_600), NOW));
    assert!(!is_stale_since("running", at(21_599), NOW));
    assert!(is_stale_since("running", None, NOW));
    assert!(!is_stale_since("done", None, NOW));
    assert!(!is_stale_since("what", None, NOW));
    assert!(is_stale_transient_session_status("loading", "2026-04-03T08:00:00+02:00", NOW));
    assert!(!is_stale_transient_session_status("loading", "2026-04-03T08:00:01+02:00", NOW));
    assert!(is_stale_transient_session_status("loading", "yesterday", NOW));
}

#[test]
fn stored_statuses_become_snapshots() {
    let mut odd = session("s", "t", "what");
    odd.status_source = "x".to_string();
    odd.status_confidence = "y".to_string();
    odd.status_reason = " ".to_string();
    let projects = vec![project("p", vec![odd])];
    assert_eq!(
        sidebar_session_status_snapshot(&projects, "p", "s"),
        Some(SessionStatusSnapshot::new(
            SessionStatus::Idle,
            SessionStatusSource::Structured,
            SessionStatusConfidence::Low,
            None
        ))
    );
    assert_eq!(sidebar_session_status_snapshot(&projects, "p", "x"), None);
    assert_eq!(sidebar_session_status_snapshot(&projects, "x", "s"), None);
    assert_eq!(sidebar_status_source_label(SessionStatusSource::Heuristic), "heuristic");
}

#[test]
fn a_guess_is_reset_outside_of_codex() {
    let guess = SessionStatusSnapshot::new(
        SessionStatus::Running,
        SessionStatusSource::Heuristic,
        SessionStatusConfidence::Low,
        None,
    );
    let mut vars = UserVars::new();
    assert!(resets_transient_status(&vars, &None, &guess));
    assert!(!resets_transient_status(&vars, &Some("/bin/codex".to_string()), &guess));
    assert!(!resets_transient_status(&vars, &None, &reset_snapshot()));
    vars.insert("WEZTERM_PROG".to_string(), " codex run ".to_string());
    assert!(!resets_transient_status(&vars, &None, &guess));
}

#[test]
fn sessions_are_picked_in_order_of_evidence() {
    let mut active = session("s2", "b", "running");
    active.updated_at = "2026-04-03T10:00:00Z".to_string();
    let mut stale = session("s3", "c", "running");
    stale.updated_at = "2026-04-02T10:00:00Z".to_string();
    let p = project("p", vec![session("s1", "a", "idle"), active, stale]);
    let pick = |bound: Vec<&str>, title: &str| {
        let bound: Vec<String> = bound.into_iter().map(str::to_string).collect();
        pick_session_at(&p, &bound, title, NOW).map(|s| s.id.clone())
    };
    assert_eq!(pick(vec![], " c ").as_deref(), Some("s3"));
    assert_eq!(pick(vec![], "x").as_deref(), Some("s2"));
    assert_eq!(pick(vec!["p::s2"], "x").as_deref(), Some("s1"));
    assert_eq!(pick(vec!["p::s1", "p::s2"], "x").as_deref(), Some("s3"));
    assert_eq!(pick(vec!["p::s1", "p::s2", "p::s3"], "a").as_deref(), Some("s1"));
    assert!(pick_session_at(&project("q", vec![]), &vec![], "x", NOW).is_none());
}

#[test]
fn tabs_and_sessions_stay_one_to_one() {
    let mut tabs = TabBindings::new();
    tabs.sidebar_bind_session_to_tab("p", "a", 1);
    tabs.sidebar_bind_session_to_tab("p", "b", 2);
    assert_eq!(tabs.session_for_tab(1), pair("p", "a"));
    assert_eq!(tabs.tab_for_session("p", "b"), Some(2));
    tabs.sidebar_bind_session_to_tab("p", "a", 2);
    assert_eq!(tabs.session_for_tab(1), None);
    assert_eq!(tabs.session_for_tab(2), pair("p", "a"));
    assert_eq!(tabs.tab_for_session("p", "b"), None);
    assert_eq!(tabs.bound_session_keys(), vec!["p::a".to_string()]);
    tabs.sidebar_unbind_tab(2);
    assert_eq!(tabs.tab_for_session("p", "a"), None);
}

#[test]
fn tabs_that_are_gone_are_forgotten() {
    let mut tabs = TabBindings::new();
    tabs.sidebar_bind_session_to_tab("p", "a", 1);
    tabs.sidebar_bind_session_to_tab("p", "b", 2);
    tabs.prune(&Some(vec![2, 3]));
    assert_eq!(tabs.session_for_tab(1), None);
    assert_eq!(tabs.session_for_tab(2), pair("p", "b"));
    tabs.prune(&None);
    assert_eq!(tabs.session_for_tab(2), None);
}

#[test]
fn opening_a_session_waits_for_its_tab() {
    let projects = vec![project("p", vec![session("a", "title", "idle")])];
    let mut tabs = TabBindings::new();
    assert_eq!(
        tabs.sidebar_activate_session(&projects, "p", "x", None),
        Err("session not found: p/x".to_string())
    );
    assert_eq!(
        tabs.sidebar_activate_session(&projects, "p", "a", None),
        Ok(ActivateStep::Open(OpenRequest {
            root_path: "/w/p".to_string(),
            title: "title".to_string()
        }))
    );
    assert_eq!(
        tabs.sidebar_activate_session(&projects, "p", "a", None),
        Ok(ActivateStep::Wait)
    );
    assert_eq!(tabs.sidebar_bind_pending_open_to_tab(5).as_deref(), Some("title"));
    assert_eq!(tabs.sidebar_bind_pending_open_to_tab(6), None);
    assert_eq!(
        tabs.sidebar_activate_session(&projects, "p", "a", None),
        Ok(ActivateStep::ActivateTab(5))
    );
    assert!(matches!(
        tabs.sidebar_activate_session(&projects, "p", "a", Some(5)),
        Ok(ActivateStep::Open(_))
    ));
    assert_eq!(tabs.session_for_tab(5), None);
    assert_eq!(tabs.forget_project("p"), Vec::<u64>::new());
    assert_eq!(tabs.sidebar_bind_pending_open_to_tab(7), None);
}

#[test]
fn closing_spares_pinned_sessions() {
    let projects = vec![project(
        "p",
        vec![session("a", "A", "idle"), pinned(session("b", "B", "idle")), session("c", "C", "idle")],
    )];
    let mut tabs = TabBindings::new();
    tabs.sidebar_bind_session_to_tab("p", "a", 1);
    tabs.sidebar_bind_session_to_tab("p", "b", 2);
    tabs.sidebar_bind_session_to_tab("p", "c", 3);
    tabs.sidebar_bind_session_to_tab("q", "d", 4);
    assert_eq!(tabs.sidebar_collect_close_other_tabs(&projects, "p", "a"), vec![3]);
    assert_eq!(tabs.sidebar_collect_close_all_tabs(&projects, "p"), vec![1, 3]);
    assert_eq!(tabs.project_tabs("p"), vec![1, 2, 3]);
    let request = sidebar_request_close_other_sessions(&tabs, &projects, "p", "a").expect("request");
    assert_eq!(
        request.message,
        "Close 1 unpinned session in \"name-p\"?\nKeep current \"A\" and all pinned sessions."
    );
    assert_eq!(
        request.action,
        SidebarCloseAction::CloseOthers { project_id: "p".to_string(), session_id: "a".to_string() }
    );
    let request = sidebar_request_close_all_unpinned(&tabs, &projects, "p").expect("request");
    assert_eq!(
        request.message,
        "Close all 2 unpinned sessions in \"name-p\"?\nPinned sessions will remain open."
    );
    assert_eq!(tabs.sidebar_close_tabs(&vec![1, 3], &vec![3, 4]), vec![3]);
    assert!(sidebar_request_close_all_unpinned(&tabs, &projects, "p").is_none());
    assert_eq!(tabs.sidebar_is_tab_pinned(&projects, 2, false), Some(true));
    assert_eq!(tabs.sidebar_is_tab_pinned(&projects, 4, false), None);
    assert_eq!(tabs.sidebar_is_tab_pinned(&projects, 4, true), Some(false));
    assert_eq!(tabs.sidebar_is_tab_pinned(&projects, 9, false), Some(false));
    assert_eq!(tabs.sidebar_session_binding_for_pane(1, 2, 2), PaneBinding::Elsewhere);
    assert_eq!(tabs.sidebar_session_binding_for_pane(1, 1, 9), PaneBinding::Unbound);
    assert_eq!(
        tabs.sidebar_session_binding_for_pane(1, 1, 2),
        PaneBinding::Bound { project_id: "p".to_string(), session_id: "b".to_string() }
    );
}

#[test]
fn deleting_asks_first() {
    let projects =
        vec![project("p", vec![session("a", "A", "idle"), pinned(session("b", "B", "idle"))]), project("q", vec![])];
    assert_eq!(
        sidebar_request_delete_session(&projects, "p", "a").message,
        "Delete session \"A\" from \"name-p\"?\nThis cannot be undone."
    );
    assert_eq!(
        sidebar_request_delete_session(&projects, "p", "b").message,
        "Delete pinned session \"B\" from \"name-p\"?\nThis cannot be undone."
    );
    assert_eq!(
        sidebar_request_delete_project(&projects, "p").message,
        "Delete project \"name-p\" with 2 sessions (1 pinned)?\nThis cannot be undone."
    );
    assert_eq!(
        sidebar_request_delete_project(&projects, "q").message,
        "Delete project \"name-q\"?\nThis cannot be undone."
    );
    assert_eq!(
        sidebar_request_delete_project(&projects, "x").message,
        "Delete project \"x\"?\nThis cannot be undone."
    );
}

#[test]
fn notices_have_their_words() {
    let name = || "n".to_string();
    for (notice, words) in [
        (SidebarNotice::ProjectExists { name: name() }, "Project \"n\" already exists."),
        (SidebarNotice::CreatedProject { name: name() }, "Created project \"n\"."),
        (SidebarNotice::RenamedProject { name: name() }, "Renamed project to \"n\"."),
        (SidebarNotice::DeletedProject { name: name() }, "Deleted project \"n\"."),
        (SidebarNotice::EmptyProjectTitle, "Project title cannot be empty"),
        (SidebarNotice::RenamedSession { title: name() }, "Renamed session to \"n\"."),
        (SidebarNotice::DeletedSession { title: name() }, "Deleted session \"n\"."),
        (SidebarNotice::EmptySessionTitle, "Session title cannot be empty"),
        (SidebarNotice::EmptySnippet, "Snippet cannot be empty"),
        (SidebarNotice::AddedSnippet { name: name() }, "Added snippet \"n\"."),
        (SidebarNotice::UpdatedSnippet { name: name() }, "Updated snippet \"n\"."),
        (SidebarNotice::DeletedSnippet { name: name() }, "Deleted snippet \"n\"."),
        (SidebarNotice::InsertedSnippet, "Snippet inserted"),
        (SidebarNotice::Closed { count: 0 }, "No unpinned sessions to close"),
        (SidebarNotice::Closed { count: 1 }, "Closed 1 session."),
        (SidebarNotice::Closed { count: 12 }, "Closed 12 sessions."),
        (SidebarNotice::CloseFailed, "Failed to apply sidebar action"),
        (SidebarNotice::CloseCanceled, "Close action canceled"),
        (SidebarNotice::ActionFailed, "Sidebar action failed"),
        (SidebarNotice::StateNotSaved, "Failed to save sidebar state"),
        (SidebarNotice::WidthNotSaved, "Failed to save sidebar width"),
    ] {
        assert_eq!(notice.text(), words);
    }
}

#[test]
fn shortcuts_need_something_to_work_on() {
    let projects = vec![project("p", vec![pinned(session("a", "A", "idle"))])];
    let ids = || ("p".to_string(), "a".to_string());
    assert_eq!(
        sidebar_shortcut_create_session(&None).map_err(|n| n.text()),
        Err("Select a project before creating a session".to_string())
    );
    assert_eq!(
        sidebar_shortcut_create_session(&Some("p".to_string())),
        Ok(SidebarAction::CreateSessionInProject { project_id: "p".to_string() })
    );
    assert_eq!(
        sidebar_shortcut_toggle_pin_current_session(&Some(ids()), &projects),
        Ok(SidebarAction::TogglePin {
            project_id: "p".to_string(),
            session_id: "a".to_string(),
            pinned: false
        })
    );
    assert_eq!(
        sidebar_shortcut_rename_current_session(&Some(ids())),
        Ok(SidebarAction::RenameSession { project_id: "p".to_string(), session_id: "a".to_string() })
    );
    assert_eq!(
        sidebar_shortcut_delete_current_session(&Some(ids())),
        Ok(SidebarAction::DeleteSession { project_id: "p".to_string(), session_id: "a".to_string() })
    );
    for (answer, words) in [
        (sidebar_shortcut_toggle_pin_current_session(&None, &projects), "No active session to pin"),
        (sidebar_shortcut_rename_current_session(&None), "No active session to rename"),
        (sidebar_shortcut_delete_current_session(&None), "No active session to delete"),
    ] {
        assert_eq!(answer.map_err(|n| n.text()), Err(words.to_string()));
    }
    assert_eq!(sidebar_active_project_for_shortcuts(&pair("q", "x"), &projects).as_deref(), Some("q"));
    assert_eq!(sidebar_active_project_for_shortcuts(&None, &projects).as_deref(), Some("p"));
    assert_eq!(sidebar_active_project_for_shortcuts(&None, &vec![]), None);
}

#[test]
fn rename_prompts_are_judged() {
    assert_eq!(rename_request("  ", "old"), RenameRequest::Blank);
    assert_eq!(rename_request(" old ", "old "), RenameRequest::Unchanged);
    assert_eq!(rename_request(" new ", "old"), RenameRequest::Rename("new".to_string()));
}

#[test]
fn inert_actions_do_nothing() {
    let id = || "p".to_string();
    assert!(sidebar_action_is_inert(&SidebarAction::ProjectRow { project_id: id() }));
    assert!(sidebar_action_is_inert(&SidebarAction::OpenProjectContextMenu { project_id: id() }));
    assert!(!sidebar_action_is_inert(&SidebarAction::RenameProject { project_id: id() }));
}

#[test]
fn the_session_of_a_tab_is_inferred() {
    let projects = vec![project("p", vec![session("a", "A", "idle")]), project("q", vec![])];
    let next = |event, cwd: &str| {
        sidebar_infer_session_binding_for_tab(event, &projects, cwd, &vec![], "x", NOW)
    };
    let bind = |p: &str, s: &str| InferAction::Bind {
        project_id: p.to_string(),
        session_id: s.to_string(),
    };
    assert_eq!(next(InferEvent::Begin, "/w/p/src"), bind("p", "a"));
    assert_eq!(
        next(InferEvent::Begin, "/w/q"),
        InferAction::EnsureSession { project_id: "q".to_string() }
    );
    assert_eq!(next(InferEvent::Begin, "/elsewhere"), InferAction::EnsureProject);
    assert_eq!(next(InferEvent::ProjectEnsured(Some("p".to_string())), "/elsewhere"), bind("p", "a"));
    assert_eq!(next(InferEvent::ProjectEnsured(None), "/elsewhere"), InferAction::GiveUp);
    assert_eq!(
        next(
            InferEvent::SessionEnsured {
                project_id: "q".to_string(),
                session_id: Some("n".to_string())
            },
            "/w/q"
        ),
        bind("q", "n")
    );
    assert_eq!(
        next(InferEvent::SessionEnsured { project_id: "q".to_string(), session_id: None }, "/w/q"),
        InferAction::GiveUp
    );
}

fn place() -> MenuPlace {
    MenuPlace { mouse_x: -5, mouse_y: 40, reserved_width_px: 320, cell_height: 20 }
}

fn labels(menu: &SidebarContextMenuModal) -> Vec<&str> {
    menu.items.iter().map(|i| i.label.as_str()).collect()
}

#[test]
fn menus_offer_what_they_should() {
    let menu = sidebar_open_project_context_menu("p", place());
    assert_eq!(labels(&menu), vec!["New Session", "Rename Project", "Delete Project"]);
    assert_eq!(menu.items[2].tone, SidebarContextMenuTone::Danger);
    assert_eq!(
        menu.anchor,
        UIItem { x: 0, y: 40, width: 296, height: 28, item_type: UIItemType::SidebarPanel }
    );
    let projects = vec![project("p", vec![pinned(session("a", "A", "idle"))])];
    let menu = sidebar_open_session_context_menu(&projects, "p", "a", place());
    assert_eq!(
        labels(&menu),
        vec![
            "Open Session",
            "Rename Session",
            "Unpin Session",
            "Close Others (keep pinned)",
            "Delete Session"
        ]
    );
    assert_eq!(
        menu.items[2].action,
        SidebarAction::TogglePin {
            project_id: "p".to_string(),
            session_id: "a".to_string(),
            pinned: false
        }
    );
    let menu = sidebar_open_session_context_menu(&projects, "p", "b", place());
    assert_eq!(menu.items[2].label, "Pin Session");
    let menu = sidebar_open_snippet_context_menu("p", "s", place());
    assert_eq!(labels(&menu), vec!["Insert Snippet", "Edit Snippet", "Delete Snippet"]);
}

#[test]
fn a_menu_needs_items() {
    let anchor = || UIItem { x: 0, y: 0, width: 1, height: 1, item_type: UIItemType::SidebarPanel };
    assert_eq!(
        SidebarContextMenuModal::new(anchor(), vec![]).map(|_| ()),
        Err("sidebar context menu requires at least one item".to_string())
    );
    let item = SidebarContextMenuItem::new("x", SidebarAction::CreateProject);
    assert_eq!(item.tone, SidebarContextMenuTone::Default);
    let item = SidebarContextMenuItem::danger("x", SidebarAction::CreateProject);
    assert_eq!(item.tone, SidebarContextMenuTone::Danger);
    assert!(SidebarContextMenuModal::new(anchor(), vec![item]).is_ok());
}

#[test]
fn keys_work_a_menu() {
    let mut menu = sidebar_open_project_context_menu("p", place());
    let none = MenuModifiers::NoneHeld;
    let delete = || MenuReaction::Run(SidebarAction::DeleteProject { project_id: "p".to_string() });
    assert_eq!(menu.key_down(MenuKey::UpArrow, none), MenuReaction::Nothing);
    assert_eq!(menu.key_down(MenuKey::DownArrow, none), MenuReaction::Redraw);
    assert_eq!(menu.key_down(MenuKey::Char('j'), none), MenuReaction::Redraw);
    assert_eq!(menu.key_down(MenuKey::Char('j'), none), MenuReaction::Nothing);
    assert_eq!(menu.selected_row, 2);
    assert_eq!(menu.key_down(MenuKey::Enter, none), delete());
    assert_eq!(menu.key_down(MenuKey::Char('k'), none), MenuReaction::Redraw);
    assert_eq!(menu.key_down(MenuKey::Char('3'), none), delete());
    assert_eq!(menu.key_down(MenuKey::Char('4'), none), MenuReaction::Nothing);
    assert_eq!(menu.key_down(MenuKey::Char('0'), none), MenuReaction::Nothing);
    assert_eq!(menu.key_down(MenuKey::Escape, none), MenuReaction::Close);
    assert_eq!(menu.key_down(MenuKey::Escape, MenuModifiers::Other), MenuReaction::Nothing);
    assert_eq!(menu.key_down(MenuKey::Char('g'), MenuModifiers::Ctrl), MenuReaction::Close);
    assert_eq!(menu.key_down(MenuKey::Char('g'), none), MenuReaction::Nothing);
    assert_eq!(menu.key_down(MenuKey::Other, none), MenuReaction::Nothing);
}

#[test]
fn the_pointer_works_a_menu() {
    let mut menu = sidebar_open_project_context_menu("p", place());
    assert_eq!(menu.mouse_event(MenuPointer::Move, Some(1)), MenuReaction::Redraw);
    assert_eq!(menu.mouse_event(MenuPointer::Move, Some(1)), MenuReaction::Nothing);
    assert_eq!(menu.mouse_event(MenuPointer::Move, None), MenuReaction::Nothing);
    assert_eq!(menu.mouse_event(MenuPointer::WheelDown(0), None), MenuReaction::Redraw);
    assert_eq!(menu.selected_row, 2);
    assert_eq!(menu.mouse_event(MenuPointer::WheelUp(100), None), MenuReaction::Redraw);
    assert_eq!(menu.selected_row, 0);
    assert_eq!(menu.mouse_event(MenuPointer::WheelUp(1), None), MenuReaction::Nothing);
    assert_eq!(
        menu.mouse_event(MenuPointer::PressLeft, Some(1)),
        MenuReaction::Run(SidebarAction::RenameProject { project_id: "p".to_string() })
    );
    assert_eq!(menu.mouse_event(MenuPointer::PressLeft, None), MenuReaction::Close);
    assert_eq!(menu.mouse_event(MenuPointer::PressRight, Some(1)), MenuReaction::Close);
    assert_eq!(menu.mouse_event(MenuPointer::PressOther, None), MenuReaction::Close);
    assert_eq!(menu.mouse_event(MenuPointer::Other, Some(0)), MenuReaction::Nothing);
    assert_eq!(max_columns(&vec![3, 9, 4]), 9);
    assert_eq!(max_columns(&vec![]), 8);
}

#[test]
fn the_width_stays_in_range() {
    let file = |width_px| {
        Some(SidebarUiStateFile { version: 1, width_px, visible: false, updated_at: String::new() })
    };
    assert_eq!(SidebarUiState::persisted(&None), SidebarUiState { width_px: 320, visible: true });
    assert_eq!(SidebarUiState::persisted(&file(0)), SidebarUiState { width_px: 240, visible: false });
    assert_eq!(SidebarUiState::persisted(&file(9999)).width_px, 620);
    let mut state = SidebarUiState { width_px: 0, visible: true };
    assert_eq!(state.sidebar_stored_width_px(), 320);
    assert_eq!(state.sidebar_reserved_width_px(), 320);
    assert!(state.sidebar_resize_from_drag(100, 150));
    assert_eq!(state.width_px, 370);
    assert!(state.sidebar_resize_from_drag(150, 100));
    assert_eq!(state.width_px, 320);
    assert!(!state.sidebar_set_width_px(320));
    assert!(state.sidebar_set_width_px(10));
    assert_eq!(state.width_px, 240);
    assert!(!state.sidebar_set_visible(true));
    assert!(!state.sidebar_toggle_visible());
    assert_eq!(state.sidebar_reserved_width_px(), 0);
    let saved = state.to_file("now");
    assert_eq!((saved.width_px, saved.visible, saved.updated_at.as_str()), (240, false, "now"));
    assert_eq!(SidebarUiState::persisted(&Some(saved)), state);
    let unset = SidebarUiState { width_px: 0, visible: true };
    let back = SidebarUiState::persisted(&Some(unset.to_file("now")));
    assert_eq!(back, SidebarUiState { width_px: 320, visible: true });
    assert_eq!(sidebar_line_char_budget(320, 8), 37);
    assert_eq!(sidebar_line_char_budget(0, 8), 16);
}

#[test]
fn projects_are_read_again_after_a_while() {
    assert!(should_refresh(None));
    assert!(!should_refresh(Some(1199)));
    assert!(should_refresh(Some(1200)));
    let mut shown = WorkspaceSidebar::new();
    shown.refreshed(Ok(vec![project("p", vec![])]));
    shown.refreshed(Err("bad".to_string()));
    assert_eq!(shown.projects.len(), 1);
    assert_eq!(shown.last_load_error.as_deref(), Some("bad"));
    shown.refreshed(Ok(vec![]));
    assert_eq!(shown.last_load_error, None);
}

#[test]
fn prompts_stand_where_their_rows_are() {
    let item = |x, y, width, height| UIItem { x, y, width, height, item_type: UIItemType::SidebarPanel };
    let hit = |action, width| WorkspaceSidebarActionHit { x: 3, y: 70, width, height: 0, action };
    let row = || SidebarAction::ProjectRow { project_id: "p".to_string() };
    assert_eq!(sidebar_create_project_anchor(320, 20, &vec![]), item(12, 32, 296, 32));
    assert_eq!(
        sidebar_create_project_anchor(320, 20, &vec![hit(SidebarAction::CreateProject, 700)]),
        item(3, 70, 560, 1)
    );
    assert_eq!(sidebar_snippet_anchor(240, 0), item(12, 32, 260, 13));
    assert_eq!(sidebar_rename_project_anchor("p", 240, 20, &vec![]), item(12, 64, 220, 32));
    assert_eq!(sidebar_rename_project_anchor("p", 240, 20, &vec![hit(row(), 100)]), item(3, 70, 220, 1));
    let bounds = Some(PixelRect { x: 0, y: 10, width: 320, height: 1000 });
    assert_eq!(
        sidebar_rename_session_anchor("p", "s", bounds, 800, 600, 20, &vec![]),
        item(12, 360, 296, 32)
    );
    let activate =
        SidebarAction::ActivateSession { project_id: "p".to_string(), session_id: "s".to_string() };
    assert_eq!(
        sidebar_rename_session_anchor("p", "s", bounds, 800, 600, 20, &vec![hit(activate, 300)]),
        item(12, 70, 296, 1)
    );
    assert_eq!(
        sidebar_rename_session_anchor("p", "s", None, 800, 600, 20, &vec![]),
        item(120, 284, 560, 32)
    );
}

#[test]
fn painted_lines_can_be_hit() {
    let panel = PixelRect { x: 0, y: 0, width: 320, height: 600 };
    let lines = vec![
        SidebarLine::new("text", false),
        SidebarLine::action("row", SidebarAction::ProjectRow { project_id: "p".to_string() })
            .with_trailing_button("+", SidebarAction::CreateSessionInProject { project_id: "p".to_string() })
            .with_trailing_button("⋯", SidebarAction::OpenProjectContextMenu { project_id: "p".to_string() }),
    ];
    let rows = vec![
        PaintedRow { y: 12, height: 20, hovered: false },
        PaintedRow { y: 32, height: 20, hovered: true },
    ];
    let (items, hits) = sidebar_targets(panel, &lines, &rows);
    let seen: Vec<(usize, usize, usize, usize)> =
        items.iter().map(|i| (i.x, i.y, i.width, i.height)).collect();
    assert_eq!(
        seen,
        vec![
            (0, 0, 320, 600),
            (312, 0, 8, 600),
            (0, 32, 320, 20),
            (284, 32, 28, 20),
            (252, 32, 28, 20),
        ]
    );
    assert_eq!(items[1].item_type, UIItemType::SidebarResizeHandle);
    let at: Vec<usize> = hits.iter().map(|h| h.x).collect();
    assert_eq!(at, vec![0, 252]);
    assert_eq!(
        workspace_sidebar_action_at(&hits, 260, 40),
        Some(SidebarAction::ProjectRow { project_id: "p".to_string() })
    );
    assert_eq!(workspace_sidebar_action_at(&hits, 260, 53), None);
    assert_eq!(workspace_sidebar_action_at(&hits, -1, 40), None);
}
