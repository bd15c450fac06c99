//! Finding the session of a tab that has none yet: the project by directory, the session by title,
//! and new ones where there are none.
use vstd::prelude::*;

use crate::sidebar::model::{
    find_project, project_with_id, ProjectView, WorkspaceSidebarProject,
};
use crate::sidebar::pick::{
    deepest_project, law_session_is_picked, pick_project_for_cwd, pick_session_at, session_for_tab,
};
use crate::sidebar::status::Timestamp;

verus! {

/// What happened last on the way to a tab's session.
#[derive(Debug)]
pub enum InferEvent {
    /// The tab was found to have no session.
    Begin,
    /// A project was made sure of for the tab's directory, or that failed.
    ProjectEnsured(Option<String>),
    /// A session was made sure of for a project, or that failed.
    SessionEnsured { project_id: String, session_id: Option<String> },
}

/// What has to be done next.
#[derive(Debug, PartialEq, Eq)]
pub enum InferAction {
    /// Make sure of a project for the tab's directory, and read the projects again.
    EnsureProject,
    /// Make sure of a session for a project, and read the projects again.
    EnsureSession { project_id: String },
    /// Bind the tab to this session.
    Bind { project_id: String, session_id: String },
    /// The tab gets no session.
    GiveUp,
}

/// An [`InferEvent`] over sequences.
pub enum InferEventView {
    Begin,
    ProjectEnsured(Option<Seq<char>>),
    SessionEnsured { project_id: Seq<char>, session_id: Option<Seq<char>> },
}

/// An [`InferAction`] over sequences.
pub enum InferActionView {
    EnsureProject,
    EnsureSession { project_id: Seq<char> },
    Bind { project_id: Seq<char>, session_id: Seq<char> },
    GiveUp,
}

impl DeepView for InferEvent {
    type V = InferEventView;

    open spec fn deep_view(&self) -> InferEventView {
        match self {
            InferEvent::Begin => InferEventView::Begin,
            InferEvent::ProjectEnsured(id) => InferEventView::ProjectEnsured(id.deep_view()),
            InferEvent::SessionEnsured { project_id, session_id } => {
                InferEventView::SessionEnsured {
                    project_id: project_id@,
                    session_id: session_id.deep_view(),
                }
            },
        }
    }
}

impl DeepView for InferAction {
    type V = InferActionView;

    open spec fn deep_view(&self) -> InferActionView {
        match self {
            InferAction::EnsureProject => InferActionView::EnsureProject,
            InferAction::EnsureSession { project_id } => InferActionView::EnsureSession {
                project_id: project_id@,
            },
            InferAction::Bind { project_id, session_id } => InferActionView::Bind {
                project_id: project_id@,
                session_id: session_id@,
            },
            InferAction::GiveUp => InferActionView::GiveUp,
        }
    }
}

/// With the project known: its session for the tab, or else a session has to be made sure of.
pub open spec fn session_choice(
    projects: Seq<ProjectView>,
    project_id: Seq<char>,
    bound: Seq<Seq<char>>,
    tab_title: Seq<char>,
    now: Timestamp,
) -> InferActionView {
    let picked = match project_with_id(projects, project_id) {
        Some(project) => session_for_tab(project, bound, tab_title, now),
        None => None,
    };
    match picked {
        Some(session) => InferActionView::Bind { project_id, session_id: session.id },
        None => InferActionView::EnsureSession { project_id },
    }
}

/// What has to be done next for a tab without a session.
pub open spec fn infer_next(
    event: InferEventView,
    projects: Seq<ProjectView>,
    cwd: Seq<char>,
    bound: Seq<Seq<char>>,
    tab_title: Seq<char>,
    now: Timestamp,
) -> InferActionView {
    match event {
        InferEventView::Begin => match deepest_project(projects, cwd) {
            Some(project) => session_choice(projects, project.id, bound, tab_title, now),
            None => InferActionView::EnsureProject,
        },
        InferEventView::ProjectEnsured(Some(project_id)) => session_choice(
            projects,
            project_id,
            bound,
            tab_title,
            now,
        ),
        InferEventView::ProjectEnsured(None) => InferActionView::GiveUp,
        InferEventView::SessionEnsured { project_id, session_id: Some(session_id) } => {
            InferActionView::Bind { project_id, session_id }
        },
        InferEventView::SessionEnsured { project_id, session_id: None } => InferActionView::GiveUp,
    }
}

fn choose_session(
    projects: &Vec<WorkspaceSidebarProject>,
    project_id: &str,
    bound_session_keys: &Vec<String>,
    tab_title: &str,
    now: Timestamp,
) -> (r: InferAction)
    ensures
        r.deep_view() == session_choice(
            projects.deep_view(),
            project_id@,
            bound_session_keys.deep_view(),
            tab_title@,
            now,
        ),
{
    let picked = match find_project(projects, project_id) {
        Some(project) => pick_session_at(project, bound_session_keys, tab_title, now),
        None => None,
    };
    match picked {
        Some(session) => InferAction::Bind {
            project_id: project_id.to_owned(),
            session_id: session.id.clone(),
        },
        None => InferAction::EnsureSession { project_id: project_id.to_owned() },
    }
}

/// What has to be done next for a tab without a session. `projects` are the projects as they were
/// read last, `bound_session_keys` the sessions that are shown in tabs.
pub fn sidebar_infer_session_binding_for_tab(
    event: InferEvent,
    projects: &Vec<WorkspaceSidebarProject>,
    cwd: &str,
    bound_session_keys: &Vec<String>,
    tab_title: &str,
    now: Timestamp,
) -> (r: InferAction)
    ensures
        r.deep_view() == infer_next(
            event.deep_view(),
            projects.deep_view(),
            cwd@,
            bound_session_keys.deep_view(),
            tab_title@,
            now,
        ),
{
    match event {
        InferEvent::Begin => match pick_project_for_cwd(projects, cwd) {
            Some(project) => choose_session(
                projects,
                project.id.as_str(),
                bound_session_keys,
                tab_title,
                now,
            ),
            None => InferAction::EnsureProject,
        },
        InferEvent::ProjectEnsured(ensured) => match ensured {
            Some(project_id) => choose_session(
                projects,
                project_id.as_str(),
                bound_session_keys,
                tab_title,
                now,
            ),
            None => InferAction::GiveUp,
        },
        InferEvent::SessionEnsured { project_id, session_id } => match session_id {
            Some(session_id) => InferAction::Bind { project_id, session_id },
            None => InferAction::GiveUp,
        },
    }
}

/// A tab gets a session or none after at most two things that have to be made sure of: once a
/// project is sure only a session may be wanted, and once a session is sure nothing is.
pub proof fn law_inference_ends(
    event: InferEventView,
    projects: Seq<ProjectView>,
    cwd: Seq<char>,
    bound: Seq<Seq<char>>,
    tab_title: Seq<char>,
    now: Timestamp,
)
    ensures
        infer_next(event, projects, cwd, bound, tab_title, now) is EnsureProject ==> event is Begin,
        infer_next(event, projects, cwd, bound, tab_title, now) is EnsureSession ==> !(
        event is SessionEnsured),
        infer_next(event, projects, cwd, bound, tab_title, now) is GiveUp ==> !(event is Begin),
{
}

/// A tab is bound only to a session of the project that it was found or made for, and where that
/// project has sessions none is made.
pub proof fn law_inferred_session_exists(
    projects: Seq<ProjectView>,
    project_id: Seq<char>,
    bound: Seq<Seq<char>>,
    tab_title: Seq<char>,
    now: Timestamp,
)
    ensures
        session_choice(projects, project_id, bound, tab_title, now) matches InferActionView::Bind {
            project_id: p,
            session_id: s,
        } ==> p == project_id && exists|i: int|
            0 <= i < project_with_id(projects, project_id)->0.sessions.len() && (
            #[trigger] project_with_id(projects, project_id)->0.sessions[i]).id == s,
        project_with_id(projects, project_id) matches Some(project) && project.sessions.len() > 0
            ==> session_choice(projects, project_id, bound, tab_title, now) is Bind,
{
    match project_with_id(projects, project_id) {
        Some(project) => {
            law_session_is_picked(project, bound, tab_title, now);
            if session_for_tab(project, bound, tab_title, now) is Some {
                let picked = session_for_tab(project, bound, tab_title, now)->0;
                let k = choose|k: int|
                    0 <= k < project.sessions.len() && project.sessions[k] == picked;
                assert(project.sessions[k].id == picked.id);
            }
        },
        None => {},
    }
}

} // verus!
