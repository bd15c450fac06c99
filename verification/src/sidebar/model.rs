//! What the sidebar stores and shows: projects, their sessions and their snippets.
use vstd::prelude::*;

use crate::order::Keyed;
use crate::text::{lowered, same_text, to_ascii_lowercase};

verus! {

/// The version of the stored files.
pub fn schema_version() -> (r: u8)
    ensures
        r == 1,
{
    1
}

/// A stored project.
#[derive(Debug, PartialEq, Eq)]
pub struct ProjectEntry {
    pub id: String,
    pub name: String,
    pub root_path: String,
    pub created_at: String,
    pub last_active_at: String,
}

/// A [`ProjectEntry`] over sequences.
pub struct ProjectEntryView {
    pub id: Seq<char>,
    pub name: Seq<char>,
    pub root_path: Seq<char>,
    pub created_at: Seq<char>,
    pub last_active_at: Seq<char>,
}

impl DeepView for ProjectEntry {
    type V = ProjectEntryView;

    open spec fn deep_view(&self) -> ProjectEntryView {
        ProjectEntryView {
            id: self.id@,
            name: self.name@,
            root_path: self.root_path@,
            created_at: self.created_at@,
            last_active_at: self.last_active_at@,
        }
    }
}

impl Clone for ProjectEntry {
    fn clone(&self) -> (r: ProjectEntry)
        ensures
            r.deep_view() == self.deep_view(),
    {
        ProjectEntry {
            id: self.id.clone(),
            name: self.name.clone(),
            root_path: self.root_path.clone(),
            created_at: self.created_at.clone(),
            last_active_at: self.last_active_at.clone(),
        }
    }
}

/// A stored session.
#[derive(Debug, PartialEq, Eq)]
pub struct SessionEntry {
    pub id: String,
    pub title: String,
    pub status: String,
    pub codex_thread_id: String,
    pub status_source: String,
    pub status_confidence: String,
    pub status_reason: String,
    pub pinned: bool,
    pub updated_at: String,
}

/// A [`SessionEntry`] over sequences.
pub struct SessionEntryView {
    pub id: Seq<char>,
    pub title: Seq<char>,
    pub status: Seq<char>,
    pub codex_thread_id: Seq<char>,
    pub status_source: Seq<char>,
    pub status_confidence: Seq<char>,
    pub status_reason: Seq<char>,
    pub pinned: bool,
    pub updated_at: Seq<char>,
}

impl DeepView for SessionEntry {
    type V = SessionEntryView;

    open spec fn deep_view(&self) -> SessionEntryView {
        SessionEntryView {
            id: self.id@,
            title: self.title@,
            status: self.status@,
            codex_thread_id: self.codex_thread_id@,
            status_source: self.status_source@,
            status_confidence: self.status_confidence@,
            status_reason: self.status_reason@,
            pinned: self.pinned,
            updated_at: self.updated_at@,
        }
    }
}

impl Clone for SessionEntry {
    fn clone(&self) -> (r: SessionEntry)
        ensures
            r.deep_view() == self.deep_view(),
    {
        SessionEntry {
            id: self.id.clone(),
            title: self.title.clone(),
            status: self.status.clone(),
            codex_thread_id: self.codex_thread_id.clone(),
            status_source: self.status_source.clone(),
            status_confidence: self.status_confidence.clone(),
            status_reason: self.status_reason.clone(),
            pinned: self.pinned,
            updated_at: self.updated_at.clone(),
        }
    }
}

/// A stored snippet.
#[derive(Debug, PartialEq, Eq)]
pub struct SnippetEntry {
    pub id: String,
    pub name: String,
    pub content: String,
    pub updated_at: String,
}

/// A [`SnippetEntry`] over sequences.
pub struct SnippetEntryView {
    pub id: Seq<char>,
    pub name: Seq<char>,
    pub content: Seq<char>,
    pub updated_at: Seq<char>,
}

impl DeepView for SnippetEntry {
    type V = SnippetEntryView;

    open spec fn deep_view(&self) -> SnippetEntryView {
        SnippetEntryView {
            id: self.id@,
            name: self.name@,
            content: self.content@,
            updated_at: self.updated_at@,
        }
    }
}

impl Clone for SnippetEntry {
    fn clone(&self) -> (r: SnippetEntry)
        ensures
            r.deep_view() == self.deep_view(),
    {
        SnippetEntry {
            id: self.id.clone(),
            name: self.name.clone(),
            content: self.content.clone(),
            updated_at: self.updated_at.clone(),
        }
    }
}

/// The stored list of projects.
#[derive(Debug, PartialEq, Eq)]
pub struct ProjectsFile {
    pub version: u8,
    pub projects: Vec<ProjectEntry>,
}

impl Default for ProjectsFile {
    fn default() -> (r: ProjectsFile)
        ensures
            r.version == 1,
            r.projects@.len() == 0,
            r.projects.deep_view() == Seq::<ProjectEntryView>::empty(),
    {
        let r = ProjectsFile { version: schema_version(), projects: Vec::new() };
        assert(r.projects.deep_view() =~= Seq::<ProjectEntryView>::empty());
        r
    }
}

/// The stored sessions of a project.
#[derive(Debug, PartialEq, Eq)]
pub struct SessionsFile {
    pub version: u8,
    pub sessions: Vec<SessionEntry>,
}

impl Default for SessionsFile {
    fn default() -> (r: SessionsFile)
        ensures
            r.version == 1,
            r.sessions@.len() == 0,
            r.sessions.deep_view() == Seq::<SessionEntryView>::empty(),
    {
        let r = SessionsFile { version: schema_version(), sessions: Vec::new() };
        assert(r.sessions.deep_view() =~= Seq::<SessionEntryView>::empty());
        r
    }
}

/// The stored snippets of a project.
#[derive(Debug, PartialEq, Eq)]
pub struct SnippetsFile {
    pub version: u8,
    pub snippets: Vec<SnippetEntry>,
}

impl Default for SnippetsFile {
    fn default() -> (r: SnippetsFile)
        ensures
            r.version == 1,
            r.snippets@.len() == 0,
            r.snippets.deep_view() == Seq::<SnippetEntryView>::empty(),
    {
        let r = SnippetsFile { version: schema_version(), snippets: Vec::new() };
        assert(r.snippets.deep_view() =~= Seq::<SnippetEntryView>::empty());
        r
    }
}

/// A session as the sidebar shows it.
#[derive(Debug, PartialEq, Eq)]
pub struct WorkspaceSidebarSession {
    pub id: String,
    pub title: String,
    pub status: String,
    pub status_source: String,
    pub status_confidence: String,
    pub status_reason: String,
    pub pinned: bool,
    pub updated_at: String,
}

/// A [`WorkspaceSidebarSession`] over sequences.
pub struct SessionView {
    pub id: Seq<char>,
    pub title: Seq<char>,
    pub status: Seq<char>,
    pub status_source: Seq<char>,
    pub status_confidence: Seq<char>,
    pub status_reason: Seq<char>,
    pub pinned: bool,
    pub updated_at: Seq<char>,
}

impl DeepView for WorkspaceSidebarSession {
    type V = SessionView;

    open spec fn deep_view(&self) -> SessionView {
        SessionView {
            id: self.id@,
            title: self.title@,
            status: self.status@,
            status_source: self.status_source@,
            status_confidence: self.status_confidence@,
            status_reason: self.status_reason@,
            pinned: self.pinned,
            updated_at: self.updated_at@,
        }
    }
}

impl Clone for WorkspaceSidebarSession {
    fn clone(&self) -> (r: WorkspaceSidebarSession)
        ensures
            r.deep_view() == self.deep_view(),
    {
        WorkspaceSidebarSession {
            id: self.id.clone(),
            title: self.title.clone(),
            status: self.status.clone(),
            status_source: self.status_source.clone(),
            status_confidence: self.status_confidence.clone(),
            status_reason: self.status_reason.clone(),
            pinned: self.pinned,
            updated_at: self.updated_at.clone(),
        }
    }
}

/// A project as the sidebar shows it.
#[derive(Debug, PartialEq, Eq)]
pub struct WorkspaceSidebarProject {
    pub id: String,
    pub name: String,
    pub root_path: String,
    pub sessions: Vec<WorkspaceSidebarSession>,
}

/// A [`WorkspaceSidebarProject`] over sequences.
pub struct ProjectView {
    pub id: Seq<char>,
    pub name: Seq<char>,
    pub root_path: Seq<char>,
    pub sessions: Seq<SessionView>,
}

impl DeepView for WorkspaceSidebarProject {
    type V = ProjectView;

    open spec fn deep_view(&self) -> ProjectView {
        ProjectView {
            id: self.id@,
            name: self.name@,
            root_path: self.root_path@,
            sessions: self.sessions.deep_view(),
        }
    }
}

/// Sessions are listed from the one that changed last.
impl Keyed for WorkspaceSidebarSession {
    open spec fn key_of(value: SessionView) -> Seq<char> {
        value.updated_at
    }

    fn key(&self) -> (r: String) {
        self.updated_at.clone()
    }
}

/// Projects are listed by name, without regard to ASCII letter case.
impl Keyed for WorkspaceSidebarProject {
    open spec fn key_of(value: ProjectView) -> Seq<char> {
        lowered(value.name)
    }

    fn key(&self) -> (r: String) {
        to_ascii_lowercase(self.name.as_str())
    }
}

/// Snippets are listed from the one that changed last.
impl Keyed for SnippetEntry {
    open spec fn key_of(value: SnippetEntryView) -> Seq<char> {
        value.updated_at
    }

    fn key(&self) -> (r: String) {
        self.updated_at.clone()
    }
}

/// The first project with this id.
pub open spec fn project_with_id(projects: Seq<ProjectView>, id: Seq<char>) -> Option<ProjectView>
    decreases projects.len(),
{
    if projects.len() == 0 {
        None
    } else if projects[0].id == id {
        Some(projects[0])
    } else {
        project_with_id(projects.skip(1), id)
    }
}

/// The first session with this id.
pub open spec fn session_with_id(sessions: Seq<SessionView>, id: Seq<char>) -> Option<SessionView>
    decreases sessions.len(),
{
    if sessions.len() == 0 {
        None
    } else if sessions[0].id == id {
        Some(sessions[0])
    } else {
        session_with_id(sessions.skip(1), id)
    }
}

/// A session of a project.
pub open spec fn session_in(
    projects: Seq<ProjectView>,
    project_id: Seq<char>,
    session_id: Seq<char>,
) -> Option<SessionView> {
    match project_with_id(projects, project_id) {
        Some(project) => session_with_id(project.sessions, session_id),
        None => None,
    }
}

/// What is seen of a project through an optional reference.
pub open spec fn seen_project(project: Option<&WorkspaceSidebarProject>) -> Option<ProjectView> {
    match project {
        Some(value) => Some(value.deep_view()),
        None => None,
    }
}

/// What is seen of a session through an optional reference.
pub open spec fn seen_session(session: Option<&WorkspaceSidebarSession>) -> Option<SessionView> {
    match session {
        Some(value) => Some(value.deep_view()),
        None => None,
    }
}

/// The first project with this id.
pub fn find_project<'a>(projects: &'a Vec<WorkspaceSidebarProject>, id: &str) -> (r: Option<
    &'a WorkspaceSidebarProject,
>)
    ensures
        seen_project(r) == project_with_id(projects.deep_view(), id@),
{
    let ghost all = projects.deep_view();
    let mut i: usize = 0;
    assert(all.skip(0) =~= all);
    while i < projects.len()
        invariant
            i <= projects@.len(),
            all == projects.deep_view(),
            project_with_id(all, id@) == project_with_id(all.skip(i as int), id@),
        decreases projects@.len() - i,
    {
        assert(all.skip(i as int)[0] == projects@[i as int].deep_view());
        assert(all.skip(i as int).skip(1) =~= all.skip(i + 1));
        if same_text(projects[i].id.as_str(), id) {
            return Some(&projects[i]);
        }
        i = i + 1;
    }
    None
}

/// The first session with this id.
pub fn find_session<'a>(sessions: &'a Vec<WorkspaceSidebarSession>, id: &str) -> (r: Option<
    &'a WorkspaceSidebarSession,
>)
    ensures
        seen_session(r) == session_with_id(sessions.deep_view(), id@),
{
    let ghost all = sessions.deep_view();
    let mut i: usize = 0;
    assert(all.skip(0) =~= all);
    while i < sessions.len()
        invariant
            i <= sessions@.len(),
            all == sessions.deep_view(),
            session_with_id(all, id@) == session_with_id(all.skip(i as int), id@),
        decreases sessions@.len() - i,
    {
        assert(all.skip(i as int)[0] == sessions@[i as int].deep_view());
        assert(all.skip(i as int).skip(1) =~= all.skip(i + 1));
        if same_text(sessions[i].id.as_str(), id) {
            return Some(&sessions[i]);
        }
        i = i + 1;
    }
    None
}

/// A session of a project.
pub fn find_session_in<'a>(
    projects: &'a Vec<WorkspaceSidebarProject>,
    project_id: &str,
    session_id: &str,
) -> (r: Option<&'a WorkspaceSidebarSession>)
    ensures
        seen_session(r) == session_in(projects.deep_view(), project_id@, session_id@),
{
    match find_project(projects, project_id) {
        Some(project) => find_session(&project.sessions, session_id),
        None => None,
    }
}

} // verus!
