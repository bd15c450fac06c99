//! Workspace commands: projects and their sessions, kept in files and changed from the command
//! line.
use vstd::prelude::*;

use crate::entries::{find_place, has_entry, lemma_place_of, place_of, Identified};
use crate::state_paths::{state_root, state_root_of};
use crate::text::{joined, same_text};

verus! {

// ---------------------------------------------------------------------------
// Projects and sessions
// ---------------------------------------------------------------------------

/// What runs in a session.
#[derive(Debug, Clone, Copy, PartialEq, Eq, Structural)]
pub enum AgentType {
    Codex,
    Claude,
    Shell,
}

/// How a session stands.
#[derive(Debug, Clone, Copy, PartialEq, Eq, Structural)]
pub enum SessionStatus {
    Idle,
    Loading,
    NeedApprove,
    Running,
    Done,
    Error,
}

/// A project.
#[derive(Debug, PartialEq, Eq)]
pub struct Project {
    pub id: String,
    pub name: String,
    pub root_path: String,
    pub created_at: String,
    pub last_active_at: String,
}

/// A [`Project`] over sequences.
pub struct ProjectView {
    pub id: Seq<char>,
    pub name: Seq<char>,
    pub root_path: Seq<char>,
    pub created_at: Seq<char>,
    pub last_active_at: Seq<char>,
}

impl DeepView for Project {
    type V = ProjectView;

    open spec fn deep_view(&self) -> ProjectView {
        ProjectView {
            id: self.id@,
            name: self.name@,
            root_path: self.root_path@,
            created_at: self.created_at@,
            last_active_at: self.last_active_at@,
        }
    }
}

impl Clone for Project {
    fn clone(&self) -> (r: Project)
        ensures
            r.deep_view() == self.deep_view(),
    {
        Project {
            id: self.id.clone(),
            name: self.name.clone(),
            root_path: self.root_path.clone(),
            created_at: self.created_at.clone(),
            last_active_at: self.last_active_at.clone(),
        }
    }
}

/// A session of a project.
#[derive(Debug, PartialEq, Eq)]
pub struct Session {
    pub id: String,
    pub project_id: String,
    pub title: String,
    pub agent_type: AgentType,
    pub pinned: bool,
    pub status: SessionStatus,
    pub updated_at: String,
}

/// A [`Session`] over sequences.
pub struct SessionView {
    pub id: Seq<char>,
    pub project_id: Seq<char>,
    pub title: Seq<char>,
    pub agent_type: AgentType,
    pub pinned: bool,
    pub status: SessionStatus,
    pub updated_at: Seq<char>,
}

impl DeepView for Session {
    type V = SessionView;

    open spec fn deep_view(&self) -> SessionView {
        SessionView {
            id: self.id@,
            project_id: self.project_id@,
            title: self.title@,
            agent_type: self.agent_type,
            pinned: self.pinned,
            status: self.status,
            updated_at: self.updated_at@,
        }
    }
}

impl Clone for Session {
    fn clone(&self) -> (r: Session)
        ensures
            r.deep_view() == self.deep_view(),
    {
        Session {
            id: self.id.clone(),
            project_id: self.project_id.clone(),
            title: self.title.clone(),
            agent_type: self.agent_type,
            pinned: self.pinned,
            status: self.status,
            updated_at: self.updated_at.clone(),
        }
    }
}

impl Identified for Project {
    open spec fn id_of(value: ProjectView) -> Seq<char> {
        value.id
    }

    fn has_id(&self, id: &str) -> (r: bool) {
        same_text(self.id.as_str(), id)
    }
}

impl Identified for Session {
    open spec fn id_of(value: SessionView) -> Seq<char> {
        value.id
    }

    fn has_id(&self, id: &str) -> (r: bool) {
        same_text(self.id.as_str(), id)
    }
}

/// The version of the stored files.
pub fn schema_version() -> (r: u8)
    ensures
        r == 1,
{
    1
}

/// The stored projects.
#[derive(Debug, PartialEq, Eq)]
pub struct ProjectsFile {
    pub version: u8,
    pub projects: Vec<Project>,
}

impl Default for ProjectsFile {
    /// No projects.
    fn default() -> (r: ProjectsFile)
        ensures
            r.version == 1,
            r.projects.deep_view() == Seq::<ProjectView>::empty(),
    {
        let projects: Vec<Project> = Vec::new();
        assert(projects.deep_view() =~= Seq::<ProjectView>::empty());
        ProjectsFile { version: schema_version(), projects }
    }
}

/// The stored sessions of a project.
#[derive(Debug, PartialEq, Eq)]
pub struct SessionsFile {
    pub version: u8,
    pub sessions: Vec<Session>,
}

impl Default for SessionsFile {
    /// No sessions.
    fn default() -> (r: SessionsFile)
        ensures
            r.version == 1,
            r.sessions.deep_view() == Seq::<SessionView>::empty(),
    {
        let sessions: Vec<Session> = Vec::new();
        assert(sessions.deep_view() =~= Seq::<SessionView>::empty());
        SessionsFile { version: schema_version(), sessions }
    }
}

/// The stored projects, and the stored sessions of the project that a command is about.
#[derive(Debug, PartialEq, Eq)]
pub struct WorkspaceFiles {
    pub projects: ProjectsFile,
    pub sessions: SessionsFile,
}

/// An answer over views.
pub open spec fn answer_view<T: DeepView>(answer: Result<T, String>) -> Result<T::V, Seq<char>> {
    match answer {
        Ok(value) => Ok(value.deep_view()),
        Err(message) => Err(message@),
    }
}

// ---------------------------------------------------------------------------
// Projects
// ---------------------------------------------------------------------------

/// Some project has this root.
pub open spec fn root_taken(projects: Seq<ProjectView>, root: Seq<char>) -> bool {
    exists|i: int| 0 <= i < projects.len() && (#[trigger] projects[i]).root_path == root
}

/// A project as it is when it is made.
pub open spec fn new_project(
    id: Seq<char>,
    name: Seq<char>,
    root: Seq<char>,
    now: Seq<char>,
) -> ProjectView {
    ProjectView { id, name, root_path: root, created_at: now, last_active_at: now }
}

/// What adding a project answers and leaves: an error and no change where some project has the
/// root, and else the project, added behind the others.
pub open spec fn project_created(
    before: ProjectsFile,
    after: ProjectsFile,
    made: ProjectView,
    answer: Result<ProjectView, Seq<char>>,
) -> bool {
    if root_taken(before.projects.deep_view(), made.root_path) {
        &&& answer == Err::<ProjectView, Seq<char>>(
            "project already exists for root path "@ + made.root_path,
        )
        &&& after == before
    } else {
        &&& answer == Ok::<ProjectView, Seq<char>>(made)
        &&& after.version == before.version
        &&& after.projects.deep_view() == before.projects.deep_view().push(made)
    }
}

/// Adds a project.
pub fn create_project(file: &mut ProjectsFile, name: &str, root: &str, id: &str, now: &str) -> (r:
    Result<Project, String>)
    ensures
        project_created(
            *old(file),
            *final(file),
            new_project(id@, name@, root@, now@),
            answer_view(r),
        ),
        r matches Ok(project) ==> {
            &&& project.id@ == id@
            &&& project.name@ == name@
            &&& project.root_path@ == root@
            &&& project.created_at@ == now@
            &&& project.last_active_at@ == now@
            &&& final(file).projects@.len() == old(file).projects@.len() + 1
            &&& final(file).projects@.last().deep_view() == project.deep_view()
        },
{
    let ghost before = file.projects.deep_view();
    let mut i: usize = 0;
    while i < file.projects.len()
        invariant
            i <= file.projects@.len(),
            *file == *old(file),
            before == file.projects.deep_view(),
            forall|j: int| 0 <= j < i ==> (#[trigger] before[j]).root_path != root@,
        decreases file.projects@.len() - i,
    {
        assert(before[i as int] == file.projects@[i as int].deep_view());
        if same_text(file.projects[i].root_path.as_str(), root) {
            return Err(joined("project already exists for root path ", root));
        }
        i = i + 1;
    }
    let project = Project {
        id: id.to_owned(),
        name: name.to_owned(),
        root_path: root.to_owned(),
        created_at: now.to_owned(),
        last_active_at: now.to_owned(),
    };
    let copy = project.clone();
    file.projects.push(project);
    assert(file.projects.deep_view() =~= before.push(project.deep_view()));
    assert(file.projects@.last() == project);
    Ok(copy)
}

/// What is said of an id that no project has.
pub open spec fn no_project(id: Seq<char>) -> Seq<char> {
    "project not found: "@ + id
}

/// An error unless a project has this id.
pub fn ensure_project_exists(projects: &Vec<Project>, project_id: &str) -> (r: Result<(), String>)
    ensures
        match r {
            Ok(_) => has_entry::<Project>(projects.deep_view(), project_id@),
            Err(message) => !has_entry::<Project>(projects.deep_view(), project_id@) && message@
                == no_project(project_id@),
        },
{
    let place: usize = find_place(projects, project_id);
    assert(projects.deep_view().len() == projects@.len());
    if place < projects.len() {
        Ok(())
    } else {
        Err(joined("project not found: ", project_id))
    }
}

/// The projects with the first of this id active at `now`.
pub open spec fn touched(projects: Seq<ProjectView>, id: Seq<char>, now: Seq<char>) -> Seq<
    ProjectView,
> {
    let place = place_of::<Project>(projects, id);
    projects.update(place, ProjectView { last_active_at: now, ..projects[place] })
}

fn touch_project(file: &mut ProjectsFile, place: usize, now: &str)
    requires
        place < old(file).projects@.len(),
    ensures
        final(file).version == old(file).version,
        final(file).projects.deep_view() == old(file).projects.deep_view().update(
            place as int,
            ProjectView {
                last_active_at: now@,
                ..old(file).projects.deep_view()[place as int]
            },
        ),
{
    let ghost before = file.projects.deep_view();
    let mut project = file.projects[place].clone();
    project.last_active_at = now.to_owned();
    let ghost changed = project.deep_view();
    file.projects.set(place, project);
    assert(file.projects.deep_view() =~= before.update(place as int, changed));
}

// ---------------------------------------------------------------------------
// Sessions
// ---------------------------------------------------------------------------

/// A session as it is when it is made.
pub open spec fn new_session(
    id: Seq<char>,
    project_id: Seq<char>,
    title: Seq<char>,
    agent_type: AgentType,
    now: Seq<char>,
) -> SessionView {
    SessionView {
        id,
        project_id,
        title,
        agent_type,
        pinned: false,
        status: SessionStatus::Idle,
        updated_at: now,
    }
}

/// What adding a session answers and leaves: an error and no change where there is no such project,
/// and else the session, added behind the others, and the project active.
pub open spec fn session_created(
    before: WorkspaceFiles,
    after: WorkspaceFiles,
    made: SessionView,
    answer: Result<SessionView, Seq<char>>,
) -> bool {
    let projects = before.projects.projects.deep_view();
    if !has_entry::<Project>(projects, made.project_id) {
        &&& answer == Err::<SessionView, Seq<char>>(no_project(made.project_id))
        &&& after == before
    } else {
        &&& answer == Ok::<SessionView, Seq<char>>(made)
        &&& after.projects.version == before.projects.version
        &&& after.projects.projects.deep_view() == touched(
            projects,
            made.project_id,
            made.updated_at,
        )
        &&& after.sessions.version == before.sessions.version
        &&& after.sessions.sessions.deep_view() == before.sessions.sessions.deep_view().push(made)
    }
}

/// Adds a session to a project, whose sessions `files` holds.
pub fn create_session(
    files: &mut WorkspaceFiles,
    project_id: &str,
    title: &str,
    agent_type: AgentType,
    id: &str,
    now: &str,
) -> (r: Result<Session, String>)
    ensures
        session_created(
            *old(files),
            *final(files),
            new_session(id@, project_id@, title@, agent_type, now@),
            answer_view(r),
        ),
        r matches Ok(session) ==> {
            &&& session.id@ == id@
            &&& session.project_id@ == project_id@
            &&& session.title@ == title@
            &&& session.agent_type == agent_type
            &&& session.pinned == false
            &&& session.status == SessionStatus::Idle
            &&& session.updated_at@ == now@
            &&& final(files).sessions.sessions@.len() == old(files).sessions.sessions@.len() + 1
            &&& final(files).sessions.sessions@.last().deep_view() == session.deep_view()
        },
{
    let ghost before = files.sessions.sessions.deep_view();
    let place: usize = find_place(&files.projects.projects, project_id);
    if place >= files.projects.projects.len() {
        return Err(joined("project not found: ", project_id));
    }
    touch_project(&mut files.projects, place, now);
    let session = Session {
        id: id.to_owned(),
        project_id: project_id.to_owned(),
        title: title.to_owned(),
        agent_type,
        pinned: false,
        status: SessionStatus::Idle,
        updated_at: now.to_owned(),
    };
    let copy = session.clone();
    files.sessions.sessions.push(session);
    assert(files.sessions.sessions.deep_view() =~= before.push(session.deep_view()));
    assert(files.sessions.sessions@.last() == session);
    Ok(copy)
}

/// What is said of an id that no session has.
pub open spec fn no_session(id: Seq<char>) -> Seq<char> {
    "session not found: "@ + id
}

/// A session pinned or unpinned.
pub open spec fn with_pin(session: SessionView, pinned: bool, now: Seq<char>) -> SessionView {
    SessionView { pinned, updated_at: now, ..session }
}

/// What pinning a session answers and leaves: an error and no change where there is no such project,
/// or no such session in it; and else the session pinned or unpinned, and the project active.
pub open spec fn session_pinned(
    before: WorkspaceFiles,
    after: WorkspaceFiles,
    project_id: Seq<char>,
    session_id: Seq<char>,
    pinned: bool,
    now: Seq<char>,
    answer: Result<SessionView, Seq<char>>,
) -> bool {
    let projects = before.projects.projects.deep_view();
    let sessions = before.sessions.sessions.deep_view();
    let place = place_of::<Session>(sessions, session_id);
    if !has_entry::<Project>(projects, project_id) {
        &&& answer == Err::<SessionView, Seq<char>>(no_project(project_id))
        &&& after == before
    } else if !has_entry::<Session>(sessions, session_id) {
        &&& answer == Err::<SessionView, Seq<char>>(no_session(session_id))
        &&& after == before
    } else {
        &&& answer == Ok::<SessionView, Seq<char>>(with_pin(sessions[place], pinned, now))
        &&& after.projects.version == before.projects.version
        &&& after.projects.projects.deep_view() == touched(projects, project_id, now)
        &&& after.sessions.version == before.sessions.version
        &&& after.sessions.sessions.deep_view() == sessions.update(
            place,
            with_pin(sessions[place], pinned, now),
        )
    }
}

/// Pins a session of a project, whose sessions `files` holds, or unpins it.
pub fn set_session_pinned(
    files: &mut WorkspaceFiles,
    project_id: &str,
    session_id: &str,
    pinned: bool,
    now: &str,
) -> (r: Result<Session, String>)
    ensures
        session_pinned(
            *old(files),
            *final(files),
            project_id@,
            session_id@,
            pinned,
            now@,
            answer_view(r),
        ),
        r matches Ok(session) ==> {
            &&& session.id@ == session_id@
            &&& session.pinned == pinned
            &&& session.updated_at@ == now@
        },
{
    let ghost before = files.sessions.sessions.deep_view();
    let project_place: usize = find_place(&files.projects.projects, project_id);
    if project_place >= files.projects.projects.len() {
        return Err(joined("project not found: ", project_id));
    }
    let place: usize = find_place(&files.sessions.sessions, session_id);
    if place >= files.sessions.sessions.len() {
        return Err(joined("session not found: ", session_id));
    }
    assert(before[place as int] == files.sessions.sessions@[place as int].deep_view());
    touch_project(&mut files.projects, project_place, now);
    let mut session = files.sessions.sessions[place].clone();
    session.pinned = pinned;
    session.updated_at = now.to_owned();
    let copy = session.clone();
    let ghost changed = session.deep_view();
    proof {
        lemma_place_of::<Session>(before, session_id@);
    }
    files.sessions.sessions.set(place, session);
    assert(files.sessions.sessions.deep_view() =~= before.update(place as int, changed));
    Ok(copy)
}

fn copy_projects(projects: &Vec<Project>) -> (r: Vec<Project>)
    ensures
        r.deep_view() == projects.deep_view(),
{
    let ghost all = projects.deep_view();
    let mut out: Vec<Project> = Vec::new();
    let mut i: usize = 0;
    assert(out.deep_view() =~= all.take(0));
    while i < projects.len()
        invariant
            i <= projects@.len(),
            all == projects.deep_view(),
            out.deep_view() == all.take(i as int),
        decreases projects@.len() - i,
    {
        let ghost before = out.deep_view();
        out.push(projects[i].clone());
        assert(out.deep_view() =~= before.push(all[i as int]));
        assert(all.take(i + 1) =~= all.take(i as int).push(all[i as int]));
        i = i + 1;
    }
    assert(all.take(i as int) =~= all);
    out
}

fn copy_sessions(sessions: &Vec<Session>) -> (r: Vec<Session>)
    ensures
        r.deep_view() == sessions.deep_view(),
{
    let ghost all = sessions.deep_view();
    let mut out: Vec<Session> = Vec::new();
    let mut i: usize = 0;
    assert(out.deep_view() =~= all.take(0));
    while i < sessions.len()
        invariant
            i <= sessions@.len(),
            all == sessions.deep_view(),
            out.deep_view() == all.take(i as int),
        decreases sessions@.len() - i,
    {
        let ghost before = out.deep_view();
        out.push(sessions[i].clone());
        assert(out.deep_view() =~= before.push(all[i as int]));
        assert(all.take(i + 1) =~= all.take(i as int).push(all[i as int]));
        i = i + 1;
    }
    assert(all.take(i as int) =~= all);
    out
}

/// The projects, in the order in which they were made.
pub fn list_projects(file: &ProjectsFile) -> (r: Vec<Project>)
    ensures
        r.deep_view() == file.projects.deep_view(),
{
    copy_projects(&file.projects)
}

/// The sessions of a project, whose sessions `files` holds; an error where there is no such project.
pub fn list_sessions(files: &WorkspaceFiles, project_id: &str) -> (r: Result<Vec<Session>, String>)
    ensures
        answer_view(r) == if has_entry::<Project>(
            files.projects.projects.deep_view(),
            project_id@,
        ) {
            Ok::<Seq<SessionView>, Seq<char>>(files.sessions.sessions.deep_view())
        } else {
            Err(no_project(project_id@))
        },
{
    match ensure_project_exists(&files.projects.projects, project_id) {
        Ok(_) => Ok(copy_sessions(&files.sessions.sessions)),
        Err(message) => Err(message),
    }
}

// ---------------------------------------------------------------------------
// Commands
// ---------------------------------------------------------------------------

/// What a workspace command does.
#[derive(Debug, PartialEq, Eq)]
pub enum M1SubCommand {
    CreateProject { name: String, root_path: String },
    ListProjects,
    CreateSession { project_id: String, title: String, agent_type: AgentType },
    ListSessions { project_id: String },
    PinSession { project_id: String, session_id: String },
    UnpinSession { project_id: String, session_id: String },
}

/// A workspace command.
#[derive(Debug, PartialEq, Eq)]
pub struct M1Command {
    /// Where the state is, if not in the home directory.
    pub state_dir: Option<String>,
    pub sub: M1SubCommand,
}

/// What a command prints.
#[derive(Debug, PartialEq, Eq)]
pub enum CommandOutput {
    Project(Project),
    Projects(Vec<Project>),
    Session(Session),
    Sessions(Vec<Session>),
}

/// A [`CommandOutput`] over sequences.
pub enum OutputView {
    Project(ProjectView),
    Projects(Seq<ProjectView>),
    Session(SessionView),
    Sessions(Seq<SessionView>),
}

impl DeepView for CommandOutput {
    type V = OutputView;

    open spec fn deep_view(&self) -> OutputView {
        match self {
            CommandOutput::Project(project) => OutputView::Project(project.deep_view()),
            CommandOutput::Projects(projects) => OutputView::Projects(projects.deep_view()),
            CommandOutput::Session(session) => OutputView::Session(session.deep_view()),
            CommandOutput::Sessions(sessions) => OutputView::Sessions(sessions.deep_view()),
        }
    }
}

/// An answer with the project that it holds.
pub open spec fn as_project(answer: Result<OutputView, Seq<char>>) -> Result<
    ProjectView,
    Seq<char>,
> {
    match answer {
        Ok(output) => Ok(output->Project_0),
        Err(message) => Err(message),
    }
}

/// An answer with the session that it holds.
pub open spec fn as_session(answer: Result<OutputView, Seq<char>>) -> Result<
    SessionView,
    Seq<char>,
> {
    match answer {
        Ok(output) => Ok(output->Session_0),
        Err(message) => Err(message),
    }
}

/// What a command answers and leaves. `root` is the absolute root of a new project, `id` the id of
/// what is made, `now` the time.
pub open spec fn command_done(
    sub: M1SubCommand,
    before: WorkspaceFiles,
    after: WorkspaceFiles,
    root: Seq<char>,
    id: Seq<char>,
    now: Seq<char>,
    answer: Result<OutputView, Seq<char>>,
) -> bool {
    match sub {
        M1SubCommand::CreateProject { name, root_path } => {
            &&& project_created(
                before.projects,
                after.projects,
                new_project(id, name@, root, now),
                as_project(answer),
            )
            &&& answer matches Ok(output) ==> output is Project
            &&& after.sessions == before.sessions
        },
        M1SubCommand::ListProjects => {
            &&& answer == Ok::<OutputView, Seq<char>>(
                OutputView::Projects(before.projects.projects.deep_view()),
            )
            &&& after == before
        },
        M1SubCommand::CreateSession { project_id, title, agent_type } => {
            &&& session_created(
                before,
                after,
                new_session(id, project_id@, title@, agent_type, now),
                as_session(answer),
            )
            &&& answer matches Ok(output) ==> output is Session
        },
        M1SubCommand::ListSessions { project_id } => {
            &&& answer == if has_entry::<Project>(
                before.projects.projects.deep_view(),
                project_id@,
            ) {
                Ok::<OutputView, Seq<char>>(
                    OutputView::Sessions(before.sessions.sessions.deep_view()),
                )
            } else {
                Err(no_project(project_id@))
            }
            &&& after == before
        },
        M1SubCommand::PinSession { project_id, session_id } => {
            &&& session_pinned(
                before,
                after,
                project_id@,
                session_id@,
                true,
                now,
                as_session(answer),
            )
            &&& answer matches Ok(output) ==> output is Session
        },
        M1SubCommand::UnpinSession { project_id, session_id } => {
            &&& session_pinned(
                before,
                after,
                project_id@,
                session_id@,
                false,
                now,
                as_session(answer),
            )
            &&& answer matches Ok(output) ==> output is Session
        },
    }
}

/// The project whose sessions a command reads.
pub open spec fn project_read(sub: M1SubCommand) -> Option<Seq<char>> {
    match sub {
        M1SubCommand::CreateProject { .. } => None,
        M1SubCommand::ListProjects => None,
        M1SubCommand::CreateSession { project_id, .. } => Some(project_id@),
        M1SubCommand::ListSessions { project_id } => Some(project_id@),
        M1SubCommand::PinSession { project_id, .. } => Some(project_id@),
        M1SubCommand::UnpinSession { project_id, .. } => Some(project_id@),
    }
}

impl M1Command {
    /// The directory of the state: the one given, or the one in the home directory.
    pub fn state_root(&self, home: &str) -> (r: String)
        ensures
            r@ == match self.state_dir {
                Some(dir) => dir@,
                None => state_root_of(home@),
            },
    {
        match &self.state_dir {
            Some(dir) => dir.clone(),
            None => state_root(home),
        }
    }

    /// The project whose sessions have to be read before the command runs.
    pub fn project_read(&self) -> (r: Option<String>)
        ensures
            r.deep_view() == project_read(self.sub),
    {
        match &self.sub {
            M1SubCommand::CreateProject { .. } => None,
            M1SubCommand::ListProjects => None,
            M1SubCommand::CreateSession { project_id, .. } => Some(project_id.clone()),
            M1SubCommand::ListSessions { project_id } => Some(project_id.clone()),
            M1SubCommand::PinSession { project_id, .. } => Some(project_id.clone()),
            M1SubCommand::UnpinSession { project_id, .. } => Some(project_id.clone()),
        }
    }

    /// Runs the command on the stored files. `root` is the absolute root of a new project, `id` the
    /// id of what is made, `now` the time.
    pub fn run(&self, files: &mut WorkspaceFiles, root: &str, id: &str, now: &str) -> (r: Result<
        CommandOutput,
        String,
    >)
        ensures
            command_done(
                self.sub,
                *old(files),
                *final(files),
                root@,
                id@,
                now@,
                answer_view(r),
            ),
    {
        match &self.sub {
            M1SubCommand::CreateProject { name, .. } => {
                match create_project(&mut files.projects, name.as_str(), root, id, now) {
                    Ok(project) => Ok(CommandOutput::Project(project)),
                    Err(message) => Err(message),
                }
            },
            M1SubCommand::ListProjects => Ok(CommandOutput::Projects(list_projects(&files.projects))),
            M1SubCommand::CreateSession { project_id, title, agent_type } => {
                match create_session(
                    files,
                    project_id.as_str(),
                    title.as_str(),
                    *agent_type,
                    id,
                    now,
                ) {
                    Ok(session) => Ok(CommandOutput::Session(session)),
                    Err(message) => Err(message),
                }
            },
            M1SubCommand::ListSessions { project_id } => {
                match list_sessions(files, project_id.as_str()) {
                    Ok(sessions) => Ok(CommandOutput::Sessions(sessions)),
                    Err(message) => Err(message),
                }
            },
            M1SubCommand::PinSession { project_id, session_id } => {
                match set_session_pinned(files, project_id.as_str(), session_id.as_str(), true, now) {
                    Ok(session) => Ok(CommandOutput::Session(session)),
                    Err(message) => Err(message),
                }
            },
            M1SubCommand::UnpinSession { project_id, session_id } => {
                match set_session_pinned(
                    files,
                    project_id.as_str(),
                    session_id.as_str(),
                    false,
                    now,
                ) {
                    Ok(session) => Ok(CommandOutput::Session(session)),
                    Err(message) => Err(message),
                }
            },
        }
    }
}

// ---------------------------------------------------------------------------
// Laws
// ---------------------------------------------------------------------------

/// A command that fails changes nothing.
pub proof fn law_failure_changes_nothing(
    sub: M1SubCommand,
    before: WorkspaceFiles,
    after: WorkspaceFiles,
    root: Seq<char>,
    id: Seq<char>,
    now: Seq<char>,
    message: Seq<char>,
)
    requires
        command_done(sub, before, after, root, id, now, Err(message)),
    ensures
        after == before,
{
}

/// No two projects have the same root.
pub open spec fn distinct_roots(projects: Seq<ProjectView>) -> bool {
    forall|i: int, j: int|
        0 <= i < j < projects.len() ==> (#[trigger] projects[i]).root_path != (
        #[trigger] projects[j]).root_path
}

/// Every command keeps the roots of the projects distinct.
pub proof fn law_roots_stay_distinct(
    sub: M1SubCommand,
    before: WorkspaceFiles,
    after: WorkspaceFiles,
    root: Seq<char>,
    id: Seq<char>,
    now: Seq<char>,
    answer: Result<OutputView, Seq<char>>,
)
    requires
        command_done(sub, before, after, root, id, now, answer),
        distinct_roots(before.projects.projects.deep_view()),
    ensures
        distinct_roots(after.projects.projects.deep_view()),
{
    let a = before.projects.projects.deep_view();
    let b = after.projects.projects.deep_view();
    match sub {
        M1SubCommand::CreateProject { name, .. } => {
            let made = new_project(id, name@, root, now);
            if !root_taken(a, root) {
                assert(b == a.push(made));
                assert forall|i: int, j: int| 0 <= i < j < b.len() implies (
                #[trigger] b[i]).root_path != (#[trigger] b[j]).root_path by {
                    assert(b[i] == a[i]);
                    if j < a.len() {
                        assert(b[j] == a[j]);
                    }
                }
            }
        },
        _ => {
            if project_read(sub) is Some {
                lemma_touched_roots(a, project_read(sub)->0, now);
            }
        },
    }
}

proof fn lemma_touched_roots(projects: Seq<ProjectView>, id: Seq<char>, now: Seq<char>)
    requires
        distinct_roots(projects),
    ensures
        has_entry::<Project>(projects, id) ==> distinct_roots(touched(projects, id, now)),
{
    lemma_place_of::<Project>(projects, id);
    if has_entry::<Project>(projects, id) {
        let after = touched(projects, id, now);
        assert forall|i: int, j: int| 0 <= i < j < after.len() implies (
        #[trigger] after[i]).root_path != (#[trigger] after[j]).root_path by {
            assert(after[i].root_path == projects[i].root_path);
            assert(after[j].root_path == projects[j].root_path);
        }
    }
}

/// What pinning or unpinning a session answers is what listing the sessions then gives for it, with
/// every other session as it was.
pub proof fn law_pin_reads_back(
    before: WorkspaceFiles,
    after: WorkspaceFiles,
    project_id: Seq<char>,
    session_id: Seq<char>,
    pinned: bool,
    now: Seq<char>,
    session: SessionView,
    other: Seq<char>,
)
    requires
        session_pinned(before, after, project_id, session_id, pinned, now, Ok(session)),
    ensures
        ({
            let listed = after.sessions.sessions.deep_view();
            let old_list = before.sessions.sessions.deep_view();
            &&& has_entry::<Session>(listed, session_id)
            &&& listed[place_of::<Session>(listed, session_id)] == session
            &&& session.pinned == pinned
            &&& listed.len() == old_list.len()
            &&& other != session_id && has_entry::<Session>(old_list, other)
                ==> listed[place_of::<Session>(listed, other)] == old_list[place_of::<Session>(
                old_list,
                other,
            )]
        }),
{
    let old_list = before.sessions.sessions.deep_view();
    lemma_place_of::<Session>(old_list, session_id);
    if other != session_id {
        crate::entries::law_change_is_local::<Session>(old_list, session_id, session, other);
    } else {
        let listed = after.sessions.sessions.deep_view();
        crate::entries::lemma_same_ids::<Session>(old_list, listed, session_id);
    }
}

/// A session that was made is listed last, and those before it are as they were.
pub proof fn law_created_session_is_listed(
    before: WorkspaceFiles,
    after: WorkspaceFiles,
    made: SessionView,
    session: SessionView,
)
    requires
        session_created(before, after, made, Ok(session)),
    ensures
        session == made,
        after.sessions.sessions.deep_view().last() == session,
        after.sessions.sessions.deep_view().drop_last() == before.sessions.sessions.deep_view(),
        !has_entry::<Session>(before.sessions.sessions.deep_view(), session.id) ==> place_of::<
            Session,
        >(after.sessions.sessions.deep_view(), session.id)
            == before.sessions.sessions.deep_view().len(),
{
    let old_list = before.sessions.sessions.deep_view();
    assert(old_list.push(made).drop_last() =~= old_list);
    if !has_entry::<Session>(old_list, made.id) {
        crate::entries::law_added_is_found::<Session>(old_list, made, made.id);
    }
}

} // verus!
