use kaku::state_paths::{projects_file_path, sessions_file_path};
use kaku::workspace::{
    create_project, create_session, ensure_project_exists, list_projects, list_sessions,
    set_session_pinned, AgentType, CommandOutput, M1Command, M1SubCommand, ProjectsFile,
    SessionStatus, SessionsFile, WorkspaceFiles,
};

fn empty() -> WorkspaceFiles {
    WorkspaceFiles { projects: ProjectsFile::default(), sessions: SessionsFile::default() }
}

#[test]
fn persists_projects_sessions_and_pin_state() {
    let state_root = "/tmp/state/.kaku";
    let mut stored = empty();

    let project = create_project(&mut stored.projects, "demo", "/tmp/state", "proj_1", "t1")
        .expect("create project");
    let first = create_session(&mut stored, &project.id, "first", AgentType::Codex, "sess_1", "t2")
        .expect("create first session");
    create_session(&mut stored, &project.id, "second", AgentType::Claude, "sess_2", "t3")
        .expect("create second session");

    set_session_pinned(&mut stored, &project.id, &first.id, true, "t4").expect("pin first session");

    let projects = list_projects(&stored.projects);
    assert_eq!(projects.len(), 1);
    assert_eq!(projects[0].id, project.id);

    let sessions = list_sessions(&stored, &project.id).expect("list sessions after reload");
    assert_eq!(sessions.len(), 2);
    assert!(
        sessions
            .iter()
            .find(|session| session.id == first.id)
            .expect("find pinned session")
            .pinned
    );

    assert_eq!(projects_file_path(state_root), "/tmp/state/.kaku/projects.json");
    assert_eq!(
        sessions_file_path(state_root, &project.id),
        "/tmp/state/.kaku/projects/proj_1/sessions.json"
    );
}

#[test]
fn a_root_has_one_project() {
    let mut file = ProjectsFile::default();
    assert_eq!(file.version, 1);
    create_project(&mut file, "a", "/w", "p1", "t").expect("first");
    assert_eq!(
        create_project(&mut file, "b", "/w", "p2", "t"),
        Err("project already exists for root path /w".to_string())
    );
    assert_eq!(file.projects.len(), 1);
}

#[test]
fn sessions_need_their_project() {
    let mut files = empty();
    let missing = "project not found: p".to_string();
    assert_eq!(
        create_session(&mut files, "p", "t", AgentType::Shell, "s", "n").map(|_| ()),
        Err(missing.clone())
    );
    assert_eq!(
        set_session_pinned(&mut files, "p", "s", true, "n").map(|_| ()),
        Err(missing.clone())
    );
    assert_eq!(list_sessions(&files, "p").map(|_| ()), Err(missing.clone()));
    assert_eq!(ensure_project_exists(&files.projects.projects, "p"), Err(missing));
    assert_eq!(files, empty());
    create_project(&mut files.projects, "a", "/w", "p", "t").expect("project");
    assert_eq!(
        set_session_pinned(&mut files, "p", "s", true, "n").map(|_| ()),
        Err("session not found: s".to_string())
    );
    assert_eq!(files.projects.projects[0].last_active_at, "t");
    let made = create_session(&mut files, "p", "t", AgentType::Shell, "s", "n").expect("session");
    assert_eq!(made.status, SessionStatus::Idle);
    assert!(!made.pinned);
    assert_eq!(files.projects.projects[0].last_active_at, "n");
    let pinned = set_session_pinned(&mut files, "p", "s", true, "m").expect("pin");
    assert!(pinned.pinned);
    assert_eq!(pinned.updated_at, "m");
    assert_eq!(list_sessions(&files, "p"), Ok(vec![pinned]));
}

#[test]
fn commands_run_on_the_files() {
    let mut files = empty();
    let command = |sub| M1Command { state_dir: None, sub };
    let id = || "p".to_string();
    let run = |files: &mut WorkspaceFiles, sub| command(sub).run(files, "/w", "x1", "now");
    let made = run(
        &mut files,
        M1SubCommand::CreateProject { name: "demo".to_string(), root_path: "w".to_string() },
    );
    assert!(matches!(made, Ok(CommandOutput::Project(ref p)) if p.id == "x1" && p.root_path == "/w"));
    files.projects.projects[0].id = id();
    let listed = run(&mut files, M1SubCommand::ListProjects);
    assert!(matches!(listed, Ok(CommandOutput::Projects(ref l)) if l.len() == 1));
    let made = run(
        &mut files,
        M1SubCommand::CreateSession {
            project_id: id(),
            title: "t".to_string(),
            agent_type: AgentType::Codex,
        },
    );
    assert!(matches!(made, Ok(CommandOutput::Session(ref s)) if s.title == "t"));
    let pin = |session_id: &str| M1SubCommand::PinSession {
        project_id: id(),
        session_id: session_id.to_string(),
    };
    assert!(matches!(run(&mut files, pin("x1")), Ok(CommandOutput::Session(ref s)) if s.pinned));
    assert_eq!(run(&mut files, pin("zz")), Err("session not found: zz".to_string()));
    let unpin = M1SubCommand::UnpinSession { project_id: id(), session_id: "x1".to_string() };
    assert!(matches!(run(&mut files, unpin), Ok(CommandOutput::Session(ref s)) if !s.pinned));
    let listed = run(&mut files, M1SubCommand::ListSessions { project_id: id() });
    assert!(matches!(listed, Ok(CommandOutput::Sessions(ref l)) if l.len() == 1));
    assert_eq!(
        run(&mut files, M1SubCommand::ListSessions { project_id: "q".to_string() }),
        Err("project not found: q".to_string())
    );
}

#[test]
fn commands_know_their_files() {
    let command = M1Command {
        state_dir: None,
        sub: M1SubCommand::ListSessions { project_id: "p".to_string() },
    };
    assert_eq!(command.state_root("/home/me"), "/home/me/.kaku");
    assert_eq!(command.project_read().as_deref(), Some("p"));
    let command =
        M1Command { state_dir: Some("/s".to_string()), sub: M1SubCommand::ListProjects };
    assert_eq!(command.state_root("/home/me"), "/s");
    assert_eq!(command.project_read(), None);
}
