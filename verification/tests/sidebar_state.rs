use kaku::agent_status::events::{SessionStatus, SessionStatusConfidence, SessionStatusSource};
use kaku::agent_status::manager::SessionStatusSnapshot;
use kaku::sidebar::model::{
    ProjectEntry, ProjectsFile, SessionEntry, SessionsFile, SnippetEntry, SnippetsFile,
};
use kaku::sidebar::snippets::{
    sidebar_create_snippet, sidebar_delete_snippet, sidebar_edit_snippet,
    sidebar_load_project_snippets, sidebar_snippet_content,
};
use kaku::sidebar::status::{sidebar_session_status_snapshot, Timestamp};
use kaku::sidebar::store::{
    ensure_sidebar_project_for_cwd, ensure_sidebar_project_has_session,
    load_workspace_sidebar_projects, repair_sessions, short_project_path,
    sidebar_create_project_with_root_path, sidebar_create_session_in_project,
    sidebar_delete_project, sidebar_delete_session, sidebar_next_session_title,
    sidebar_rename_project, sidebar_rename_session, sidebar_set_session_codex_thread_id,
    sidebar_set_session_pin, sidebar_set_session_status_snapshot, sidebar_touch_project_last_active, EnsuredProject,
};

// 2026-04-03T12:00:00Z
const NOW: Timestamp = Timestamp { seconds: 1_775_217_600, nanos: 0 };

fn session(id: &str, title: &str, status: &str, updated_at: &str) -> SessionEntry {
    SessionEntry {
        id: id.to_string(),
        title: title.to_string(),
        status: status.to_string(),
        codex_thread_id: String::new(),
        status_source: "heuristic".to_string(),
        status_confidence: "low".to_string(),
        status_reason: "because".to_string(),
        pinned: false,
        updated_at: updated_at.to_string(),
    }
}

fn project(id: &str, name: &str, root: &str) -> ProjectEntry {
    ProjectEntry {
        id: id.to_string(),
        name: name.to_string(),
        root_path: root.to_string(),
        created_at: "c".to_string(),
        last_active_at: "l".to_string(),
    }
}

fn sessions(list: Vec<SessionEntry>) -> SessionsFile {
    SessionsFile { version: 1, sessions: list }
}

#[test]
fn repairing_fills_in_and_resets() {
    let mut blank = session("a", "a", "", "");
    blank.status_source = String::new();
    blank.status_confidence = String::new();
    let mut file = sessions(vec![
        blank,
        session("b", "b", "running", "2026-04-03T05:59:59Z"),
        session("c", "c", "running", "2026-04-03T06:00:01Z"),
        session("d", "d", "Need-Approve", "2026-04-03T11:00:00Z"),
        session("e", "e", "what", "2026-04-03T11:00:00Z"),
        session("f", "f", "done", "never"),
        session("g", "g", "loading", "never"),
    ]);
    assert!(repair_sessions(&mut file, NOW));
    let seen: Vec<(&str, &str, &str, &str)> = file
        .sessions
        .iter()
        .map(|s| {
            (
                s.status.as_str(),
                s.status_source.as_str(),
                s.status_confidence.as_str(),
                s.status_reason.as_str(),
            )
        })
        .collect();
    assert_eq!(
        seen,
        vec![
            ("idle", "structured", "low", "because"),
            ("idle", "structured", "low", ""),
            ("running", "heuristic", "low", "because"),
            ("need_approve", "structured", "low", ""),
            ("idle", "structured", "low", ""),
            ("done", "heuristic", "low", "because"),
            ("idle", "structured", "low", ""),
        ]
    );
    assert!(!repair_sessions(&mut file, NOW));
}

#[test]
fn loading_sorts_projects_and_sessions() {
    let projects = vec![project("p1", "beta", "/b"), project("p2", "Alpha", "/a"), project("p3", "gone", "/g")];
    let files = vec![
        Some(sessions(vec![
            session("s1", "one", "idle", "2026-04-03T10:00:00Z"),
            session("s2", "two", "idle", "2026-04-03T11:00:00Z"),
            session("s3", "three", "idle", "2026-04-03T11:00:00Z"),
        ])),
        Some(sessions(vec![session("s4", "four", "odd", "x")])),
        None,
    ];
    let (shown, writes) = load_workspace_sidebar_projects(projects, files, NOW);
    let names: Vec<&str> = shown.iter().map(|p| p.name.as_str()).collect();
    assert_eq!(names, vec!["Alpha", "beta", "gone"]);
    let ids: Vec<&str> = shown[1].sessions.iter().map(|s| s.id.as_str()).collect();
    assert_eq!(ids, vec!["s2", "s3", "s1"]);
    assert!(shown[2].sessions.is_empty());
    assert_eq!(writes.len(), 1);
    assert_eq!(writes[0].0, 1);
    assert_eq!(writes[0].1.sessions[0].status, "idle");
    assert_eq!(shown[0].sessions[0].status, "idle");
}

#[test]
fn new_sessions_get_the_next_free_title() {
    let mut file = SessionsFile::default();
    sidebar_create_session_in_project(&mut file, "a", "t1");
    assert_eq!(file.sessions[0], session_like("a", "session-1", "t1"));
    file.sessions[0].title = "session-3".to_string();
    assert_eq!(sidebar_next_session_title(&file.sessions), "session-2");
    sidebar_create_session_in_project(&mut file, "b", "t2");
    assert_eq!(sidebar_next_session_title(&file.sessions), "session-4");
}

fn session_like(id: &str, title: &str, now: &str) -> SessionEntry {
    SessionEntry { status_reason: String::new(), ..session(id, title, "idle", now) }
}

#[test]
fn a_project_has_a_session_afterwards() {
    let mut file = SessionsFile::default();
    assert_eq!(
        ensure_sidebar_project_has_session(&mut file, "new", "t"),
        ("new".to_string(), true)
    );
    assert_eq!(file.sessions, vec![session_like("new", "session-1", "t")]);
    let mut file = sessions(vec![
        session("a", "a", "idle", "2"),
        session("b", "b", "idle", "3"),
        session("c", "c", "idle", "3"),
        session("d", "d", "idle", "1"),
    ]);
    assert_eq!(
        ensure_sidebar_project_has_session(&mut file, "new", "t"),
        ("c".to_string(), false)
    );
    assert_eq!(file.sessions.len(), 4);
}

#[test]
fn sessions_are_changed_one_at_a_time() {
    let mut file = sessions(vec![session("a", "a", "idle", "1"), session("b", "b", "idle", "1")]);
    assert_eq!(sidebar_set_session_pin(&mut file, "b", true, "2"), Ok(()));
    assert!(file.sessions[1].pinned);
    assert_eq!(file.sessions[1].updated_at, "2");
    assert_eq!(file.sessions[0], session("a", "a", "idle", "1"));
    let snapshot = SessionStatusSnapshot::new(
        SessionStatus::NeedApprove,
        SessionStatusSource::Structured,
        SessionStatusConfidence::High,
        Some("rm -rf".to_string()),
    );
    assert_eq!(sidebar_set_session_status_snapshot(&mut file, "a", &snapshot, "3"), Ok(()));
    assert_eq!(file.sessions[0].status, "need_approve");
    assert_eq!(file.sessions[0].status_source, "structured");
    assert_eq!(file.sessions[0].status_confidence, "high");
    assert_eq!(file.sessions[0].status_reason, "rm -rf");
    assert_eq!(sidebar_set_session_codex_thread_id(&mut file, "a", "th"), Ok(()));
    assert_eq!(file.sessions[0].codex_thread_id, "th");
    assert_eq!(file.sessions[0].updated_at, "3");
    assert_eq!(
        sidebar_set_session_codex_thread_id(&mut file, "x", "th"),
        Err("session not found in storage: x".to_string())
    );
    assert_eq!(sidebar_rename_session(&mut file, "a", "  new  ", "4"), Ok("new".to_string()));
    assert_eq!(file.sessions[0].title, "new");
    assert_eq!(
        sidebar_rename_session(&mut file, "a", "  ", "4"),
        Err("session title cannot be empty".to_string())
    );
    let missing = Err("session not found in storage: x".to_string());
    assert_eq!(sidebar_set_session_pin(&mut file, "x", true, "2"), missing.clone());
    assert_eq!(sidebar_set_session_status_snapshot(&mut file, "x", &snapshot, "3"), missing);
    assert_eq!(
        sidebar_rename_session(&mut file, "x", "y", "4"),
        Err("session not found in storage: x".to_string())
    );
    assert_eq!(
        sidebar_delete_session(&mut file, "x"),
        Err("session not found in storage: x".to_string())
    );
    assert_eq!(sidebar_delete_session(&mut file, "a"), Ok("new".to_string()));
    assert_eq!(file.sessions.len(), 1);
    assert_eq!(file.sessions[0].id, "b");
}

#[test]
fn projects_keep_their_roots_apart() {
    let mut file = ProjectsFile::default();
    assert_eq!(
        sidebar_create_project_with_root_path(&mut file, "/w/kaku", "p1", "t1"),
        Ok("kaku".to_string())
    );
    assert_eq!(
        sidebar_create_project_with_root_path(&mut file, "/w/kaku", "p2", "t2"),
        Err("kaku".to_string())
    );
    assert_eq!(sidebar_create_project_with_root_path(&mut file, "/", "p3", "t3"), Ok("/".to_string()));
    assert_eq!(sidebar_create_project_with_root_path(&mut file, "", "p4", "t4"), Ok("project".to_string()));
    assert_eq!(
        ensure_sidebar_project_for_cwd(&mut file, "/w/kaku", "p5", "t5"),
        EnsuredProject::Found { id: "p1".to_string() }
    );
    file.projects[0].last_active_at = String::new();
    assert_eq!(
        ensure_sidebar_project_for_cwd(&mut file, "/w/kaku", "p5", "t5"),
        EnsuredProject::Touched { id: "p1".to_string() }
    );
    assert_eq!(file.projects[0].last_active_at, "t5");
    assert_eq!(
        ensure_sidebar_project_for_cwd(&mut file, "/w/other", "p6", "t6"),
        EnsuredProject::Added { id: "p6".to_string() }
    );
    assert_eq!(file.projects[3].name, "other");
    assert_eq!(file.projects[3].created_at, "t6");
    assert_eq!(short_project_path("/a/b/"), "b");
    assert_eq!(short_project_path("/a/.."), "/a/..");
}

#[test]
fn projects_are_renamed_touched_and_deleted() {
    let mut file = ProjectsFile { version: 1, projects: vec![project("p", "old", "/o"), project("q", "q", "/q")] };
    assert_eq!(sidebar_rename_project(&mut file, "p", " new ", "t"), Ok("new".to_string()));
    assert_eq!(file.projects[0].name, "new");
    assert_eq!(file.projects[0].last_active_at, "t");
    assert_eq!(
        sidebar_rename_project(&mut file, "p", "", "t"),
        Err("project title cannot be empty".to_string())
    );
    assert_eq!(
        sidebar_rename_project(&mut file, "x", "y", "t"),
        Err("project not found in storage: x".to_string())
    );
    sidebar_touch_project_last_active(&mut file, "q", "u");
    assert_eq!(file.projects[1].last_active_at, "u");
    sidebar_touch_project_last_active(&mut file, "x", "v");
    assert_eq!(
        sidebar_delete_project(&mut file, "x"),
        Err("project not found in storage: x".to_string())
    );
    assert_eq!(sidebar_delete_project(&mut file, "p"), Ok("new".to_string()));
    assert_eq!(file.projects.len(), 1);
}

fn snippet(id: &str, content: &str, updated_at: &str) -> SnippetEntry {
    SnippetEntry {
        id: id.to_string(),
        name: content.to_string(),
        content: content.to_string(),
        updated_at: updated_at.to_string(),
    }
}

#[test]
fn snippets_are_listed_from_the_latest() {
    let file = SnippetsFile {
        version: 1,
        snippets: vec![
            snippet("a", "1", "2026-01-01"),
            snippet(" ", "2", "2026-01-09"),
            snippet("c", "3", "2026-01-03"),
            snippet("d", "4", "2026-01-03"),
        ],
    };
    let listed = sidebar_load_project_snippets(&file);
    let ids: Vec<&str> = listed.iter().map(|s| s.id.as_str()).collect();
    assert_eq!(ids, vec!["c", "d", "a"]);
    assert_eq!(sidebar_snippet_content(&listed, "p", "a"), Ok("1".to_string()));
    assert_eq!(
        sidebar_snippet_content(&listed, "p", "x"),
        Err("snippet not found: p/x".to_string())
    );
}

#[test]
fn snippets_are_created_edited_and_deleted() {
    let mut file = SnippetsFile::default();
    assert_eq!(sidebar_create_snippet(&mut file, "a", "  \n ", "t"), None);
    assert!(file.snippets.is_empty());
    assert_eq!(
        sidebar_create_snippet(&mut file, "a", " git  status \n -sb ", "t1").as_deref(),
        Some("git status -sb")
    );
    assert_eq!(file.snippets[0].content, "git  status \n -sb");
    let listed = sidebar_load_project_snippets(&file);
    assert_eq!(sidebar_snippet_content(&listed, "p", "a"), Ok("git  status \n -sb".to_string()));
    assert_eq!(sidebar_edit_snippet(&mut file, "x", " ", "t2"), Ok(None));
    assert_eq!(
        sidebar_edit_snippet(&mut file, "x", "y", "t2"),
        Err("snippet not found in storage: x".to_string())
    );
    let long = "a b c d e f g h i j";
    assert_eq!(sidebar_edit_snippet(&mut file, "a", long, "t2"), Ok(Some("a b c d e f g h".to_string())));
    assert_eq!(file.snippets[0].updated_at, "t2");
    assert_eq!(
        sidebar_delete_snippet(&mut file, "x"),
        Err("snippet not found in storage: x".to_string())
    );
    assert_eq!(sidebar_delete_snippet(&mut file, "a"), Ok("a b c d e f g h".to_string()));
    assert!(file.snippets.is_empty());
}

#[test]
fn a_noted_status_is_restored() {
    let note = |status, reason: Option<&str>, at: &str| {
        let snapshot = SessionStatusSnapshot::new(
            status,
            SessionStatusSource::Heuristic,
            SessionStatusConfidence::High,
            reason.map(str::to_string),
        );
        let mut file = sessions(vec![session("a", "a", "done", "1"), session("b", "b", "idle", "1")]);
        sidebar_set_session_status_snapshot(&mut file, "b", &snapshot, at).expect("noted");
        let (shown, _) =
            load_workspace_sidebar_projects(vec![project("p", "p", "/p")], vec![Some(file)], NOW);
        (snapshot, sidebar_session_status_snapshot(&shown, "p", "b").expect("shown"))
    };
    let recent = "2026-04-03T11:59:00Z";
    let (noted, restored) = note(SessionStatus::NeedApprove, Some("rm"), recent);
    assert_eq!(restored, noted);
    let (noted, restored) = note(SessionStatus::Error, None, "whenever");
    assert_eq!(restored, noted);
    let (_, restored) = note(SessionStatus::Running, Some(" "), recent);
    assert_eq!((restored.status, restored.reason), (SessionStatus::Running, None));
    let (_, restored) = note(SessionStatus::Running, Some("x"), "2026-04-03T01:00:00Z");
    assert_eq!(
        restored,
        SessionStatusSnapshot::new(
            SessionStatus::Idle,
            SessionStatusSource::Structured,
            SessionStatusConfidence::Low,
            None
        )
    );
}
