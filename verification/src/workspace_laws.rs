//! What holds of the workspace commands, field by field and call after call.
use vstd::prelude::*;

use crate::entries::{lemma_place_of, place_of, Identified};
use crate::workspace::{
    command_done, new_project, new_session, project_created, session_created,
    session_pinned, AgentType, M1SubCommand, OutputView, Project, ProjectView, ProjectsFile,
    Session, SessionStatus, SessionView, WorkspaceFiles,
};

verus! {

/// A session that was made has the id, the project, the title, the agent and the time that it was
/// made with, is idle and not pinned; and so it is stored, behind the sessions that were there.
pub proof fn law_created_session_keeps_its_fields(
    before: WorkspaceFiles,
    after: WorkspaceFiles,
    id: Seq<char>,
    project_id: Seq<char>,
    title: Seq<char>,
    agent_type: AgentType,
    now: Seq<char>,
    session: SessionView,
)
    requires
        session_created(
            before,
            after,
            new_session(id, project_id, title, agent_type, now),
            Ok(session),
        ),
    ensures
        session.id == id,
        session.project_id == project_id,
        session.title == title,
        session.agent_type == agent_type,
        session.updated_at == now,
        session.status == SessionStatus::Idle,
        !session.pinned,
        after.sessions.sessions.deep_view().len() == before.sessions.sessions.deep_view().len() + 1,
        after.sessions.sessions.deep_view().last() == session,
        forall|i: int|
            0 <= i < before.sessions.sessions.deep_view().len()
                ==> #[trigger] after.sessions.sessions.deep_view()[i]
                == before.sessions.sessions.deep_view()[i],
{
}

/// Sessions made with different agents differ in their agent, whatever else they were made with.
pub proof fn law_agents_are_told_apart(
    before: WorkspaceFiles,
    after_one: WorkspaceFiles,
    after_other: WorkspaceFiles,
    id: Seq<char>,
    project_id: Seq<char>,
    title: Seq<char>,
    now: Seq<char>,
    one: AgentType,
    other: AgentType,
    answer_one: SessionView,
    answer_other: SessionView,
)
    requires
        one != other,
        session_created(
            before,
            after_one,
            new_session(id, project_id, title, one, now),
            Ok(answer_one),
        ),
        session_created(
            before,
            after_other,
            new_session(id, project_id, title, other, now),
            Ok(answer_other),
        ),
    ensures
        answer_one.agent_type != answer_other.agent_type,
        after_one.sessions.sessions.deep_view().last().agent_type
            != after_other.sessions.sessions.deep_view().last().agent_type,
{
}

/// Making a session succeeds exactly where the project exists; it is the project's activity, and no
/// other project's.
pub proof fn law_sessions_need_their_project(
    before: WorkspaceFiles,
    after: WorkspaceFiles,
    id: Seq<char>,
    project_id: Seq<char>,
    title: Seq<char>,
    agent_type: AgentType,
    now: Seq<char>,
    answer: Result<SessionView, Seq<char>>,
    i: int,
)
    requires
        session_created(
            before,
            after,
            new_session(id, project_id, title, agent_type, now),
            answer,
        ),
        0 <= i < before.projects.projects.deep_view().len(),
    ensures
        (exists|j: int|
            0 <= j < before.projects.projects.deep_view().len()
                && (#[trigger] before.projects.projects.deep_view()[j]).id == project_id)
            ==> answer is Ok,
        (forall|j: int|
            0 <= j < before.projects.projects.deep_view().len() ==> (
            #[trigger] before.projects.projects.deep_view()[j]).id != project_id)
            ==> answer is Err && after == before,
        ({
            let old_project = before.projects.projects.deep_view()[i];
            let project = after.projects.projects.deep_view()[i];
            &&& after.projects.projects.deep_view().len()
                == before.projects.projects.deep_view().len()
            &&& project.id == old_project.id
            &&& project.name == old_project.name
            &&& project.root_path == old_project.root_path
            &&& project.created_at == old_project.created_at
            &&& project.last_active_at == old_project.last_active_at || (project.id == project_id
                && project.last_active_at == now)
        }),
{
    let projects = before.projects.projects.deep_view();
    lemma_place_of::<Project>(projects, project_id);
    if exists|j: int| 0 <= j < projects.len() && (#[trigger] projects[j]).id == project_id {
        let j = choose|j: int| 0 <= j < projects.len() && (#[trigger] projects[j]).id == project_id;
        assert(Project::id_of(projects[j]) == project_id);
    }
}

/// A project that was made has the id, the name and the root that it was made with, and its time as
/// both the time of its making and that of its last activity; it is stored behind the others, which
/// are as they were. It is refused exactly where some project has its root.
pub proof fn law_created_project_keeps_its_fields(
    before: ProjectsFile,
    after: ProjectsFile,
    id: Seq<char>,
    name: Seq<char>,
    root: Seq<char>,
    now: Seq<char>,
    answer: Result<ProjectView, Seq<char>>,
)
    requires
        project_created(before, after, new_project(id, name, root, now), answer),
    ensures
        answer is Err <==> exists|i: int|
            0 <= i < before.projects.deep_view().len() && (
            #[trigger] before.projects.deep_view()[i]).root_path == root,
        answer is Err ==> after == before,
        answer matches Ok(project) ==> {
            &&& project.id == id
            &&& project.name == name
            &&& project.root_path == root
            &&& project.created_at == now
            &&& project.last_active_at == now
            &&& after.projects.deep_view() == before.projects.deep_view().push(project)
        },
{
}

/// Making a project twice at the same root is refused the second time, whatever its name and id.
pub proof fn law_roots_are_taken_once(
    before: ProjectsFile,
    between: ProjectsFile,
    after: ProjectsFile,
    made: ProjectView,
    again: ProjectView,
    project: ProjectView,
    answer: Result<ProjectView, Seq<char>>,
)
    requires
        project_created(before, between, made, Ok(project)),
        project_created(between, after, again, answer),
        again.root_path == made.root_path,
    ensures
        answer is Err,
        after == between,
{
    let projects = between.projects.deep_view();
    assert(projects[projects.len() - 1].root_path == again.root_path);
}

/// Pinning or unpinning changes of the session whether it is pinned and when it was touched, and
/// nothing else; of the other sessions nothing.
pub proof fn law_pinning_changes_the_pin_only(
    before: WorkspaceFiles,
    after: WorkspaceFiles,
    project_id: Seq<char>,
    session_id: Seq<char>,
    pinned: bool,
    now: Seq<char>,
    session: SessionView,
    i: int,
)
    requires
        session_pinned(before, after, project_id, session_id, pinned, now, Ok(session)),
        0 <= i < before.sessions.sessions.deep_view().len(),
    ensures
        ({
            let was = before.sessions.sessions.deep_view()[i];
            let is_now = after.sessions.sessions.deep_view()[i];
            &&& after.sessions.sessions.deep_view().len()
                == before.sessions.sessions.deep_view().len()
            &&& is_now.id == was.id
            &&& is_now.project_id == was.project_id
            &&& is_now.title == was.title
            &&& is_now.agent_type == was.agent_type
            &&& is_now.status == was.status
            &&& is_now == was || (was.id == session_id && is_now == session)
        }),
        session.id == session_id,
        session.pinned == pinned,
        session.updated_at == now,
{
    let sessions = before.sessions.sessions.deep_view();
    lemma_place_of::<Session>(sessions, session_id);
}

/// A session that is pinned and then unpinned is not pinned, and one that is unpinned and then
/// pinned is.
pub proof fn law_the_last_pin_counts(
    before: WorkspaceFiles,
    between: WorkspaceFiles,
    after: WorkspaceFiles,
    project_id: Seq<char>,
    session_id: Seq<char>,
    pinned: bool,
    earlier: Seq<char>,
    later: Seq<char>,
    first: SessionView,
    second: SessionView,
)
    requires
        session_pinned(before, between, project_id, session_id, pinned, earlier, Ok(first)),
        session_pinned(between, after, project_id, session_id, !pinned, later, Ok(second)),
    ensures
        second.pinned == !pinned,
        second.title == first.title,
        second.agent_type == first.agent_type,
        after.sessions.sessions.deep_view()[place_of::<Session>(
            before.sessions.sessions.deep_view(),
            session_id,
        )].pinned == !pinned,
{
    let a = before.sessions.sessions.deep_view();
    let b = between.sessions.sessions.deep_view();
    lemma_place_of::<Session>(a, session_id);
    lemma_place_of::<Session>(b, session_id);
    crate::entries::lemma_same_ids::<Session>(a, b, session_id);
}

/// Each command does what its name says: the ones that list answer what is stored and change
/// nothing; the one that makes a session answers a session with the command's project, title and
/// agent; the one that pins a session answers it pinned, and the one that unpins it, not pinned.
pub proof fn law_commands_do_what_they_say(
    sub: M1SubCommand,
    before: WorkspaceFiles,
    after: WorkspaceFiles,
    root: Seq<char>,
    id: Seq<char>,
    now: Seq<char>,
    output: OutputView,
)
    requires
        command_done(sub, before, after, root, id, now, Ok(output)),
    ensures
        sub is ListProjects ==> after == before && output == OutputView::Projects(
            before.projects.projects.deep_view(),
        ),
        sub is ListSessions ==> after == before && output == OutputView::Sessions(
            before.sessions.sessions.deep_view(),
        ),
        sub matches M1SubCommand::CreateProject { name, root_path } ==> {
            &&& output matches OutputView::Project(project)
            &&& project.id == id
            &&& project.name == name@
            &&& project.root_path == root
            &&& project.created_at == now
            &&& after.projects.projects.deep_view().last() == project
            &&& after.sessions == before.sessions
        },
        sub matches M1SubCommand::CreateSession { project_id, title, agent_type } ==> {
            &&& output matches OutputView::Session(session)
            &&& session.id == id
            &&& session.project_id == project_id@
            &&& session.title == title@
            &&& session.agent_type == agent_type
            &&& session.updated_at == now
            &&& after.sessions.sessions.deep_view().last() == session
        },
        sub matches M1SubCommand::PinSession { project_id, session_id } ==> {
            &&& output matches OutputView::Session(session)
            &&& session.id == session_id@
            &&& session.pinned
            &&& after.sessions.sessions.deep_view().contains(session)
        },
        sub matches M1SubCommand::UnpinSession { project_id, session_id } ==> {
            &&& output matches OutputView::Session(session)
            &&& session.id == session_id@
            &&& !session.pinned
            &&& after.sessions.sessions.deep_view().contains(session)
        },
{
    let sessions = before.sessions.sessions.deep_view();
    match sub {
        M1SubCommand::PinSession { project_id, session_id } => {
            lemma_place_of::<Session>(sessions, session_id@);
            let place = place_of::<Session>(sessions, session_id@);
            assert(after.sessions.sessions.deep_view()[place] == output->Session_0);
        },
        M1SubCommand::UnpinSession { project_id, session_id } => {
            lemma_place_of::<Session>(sessions, session_id@);
            let place = place_of::<Session>(sessions, session_id@);
            assert(after.sessions.sessions.deep_view()[place] == output->Session_0);
        },
        _ => {},
    }
}

/// No command changes the version of the stored files.
pub proof fn law_versions_stay(
    sub: M1SubCommand,
    before: WorkspaceFiles,
    after: WorkspaceFiles,
    root: Seq<char>,
    id: Seq<char>,
    now: Seq<char>,
    answer: Result<OutputView, Seq<char>>,
)
    requires
        command_done(sub, before, after, root, id, now, answer),
    ensures
        after.projects.version == before.projects.version,
        after.sessions.version == before.sessions.version,
{
}

/// A command that fails says why, and names the root, the project or the session that it is about.
pub proof fn law_failures_name_their_subject(
    sub: M1SubCommand,
    before: WorkspaceFiles,
    after: WorkspaceFiles,
    root: Seq<char>,
    id: Seq<char>,
    now: Seq<char>,
    message: Seq<char>,
)
    requires
        command_done(sub, before, after, root, id, now, Err(message)),
    ensures
        sub is CreateProject ==> message == "project already exists for root path "@ + root,
        sub matches M1SubCommand::CreateSession { project_id, .. } ==> message
            == "project not found: "@ + project_id@,
        sub matches M1SubCommand::ListSessions { project_id } ==> message == "project not found: "@
            + project_id@,
        sub matches M1SubCommand::PinSession { project_id, session_id } ==> message
            == "project not found: "@ + project_id@ || message == "session not found: "@
            + session_id@,
        sub matches M1SubCommand::UnpinSession { project_id, session_id } ==> message
            == "project not found: "@ + project_id@ || message == "session not found: "@
            + session_id@,
        !(sub is ListProjects),
{
}

} // verus!
