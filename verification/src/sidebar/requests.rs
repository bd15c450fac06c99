//! What the user is asked and told: questions before something is closed or deleted, notices
//! afterwards, and what shortcuts and rename prompts lead to.
use vstd::prelude::*;

use crate::sidebar::action::{ActionView, SidebarAction};
use crate::sidebar::bindings::{closable, pinned_in, TabBindings};
use crate::sidebar::labels::{
    close_all_message, close_all_question, close_others_message, close_others_question,
    closed_message, closed_text, delete_project_message, delete_project_question,
    delete_session_message, delete_session_question, pinned_count, project_name, session_counts,
    session_name, session_pinned, sidebar_lookup_session_pinned, sidebar_project_display_name,
    sidebar_session_display_name,
};
use crate::sidebar::lines::active_view;
use crate::sidebar::model::{project_with_id, ProjectView, WorkspaceSidebarProject};
use crate::text::{is_empty, joined, same_text, trim, trimmed};

verus! {

// ---------------------------------------------------------------------------
// Notices
// ---------------------------------------------------------------------------

/// Something that the user is told.
#[derive(Debug, PartialEq, Eq)]
pub enum SidebarNotice {
    ProjectExists { name: String },
    CreatedProject { name: String },
    RenamedProject { name: String },
    DeletedProject { name: String },
    EmptyProjectTitle,
    RenamedSession { title: String },
    DeletedSession { title: String },
    EmptySessionTitle,
    EmptySnippet,
    AddedSnippet { name: String },
    UpdatedSnippet { name: String },
    DeletedSnippet { name: String },
    InsertedSnippet,
    Closed { count: usize },
    NoProjectSelected,
    NothingToPin,
    NothingToRename,
    NothingToDelete,
    CloseFailed,
    CloseCanceled,
    ActionFailed,
    StateNotSaved,
    WidthNotSaved,
}

/// `head`, a quoted name and `tail`.
pub open spec fn quoting(head: Seq<char>, name: Seq<char>, tail: Seq<char>) -> Seq<char> {
    head + "\""@ + name + "\""@ + tail
}

fn quote(head: &str, name: &str, tail: &str) -> (r: String)
    ensures
        r@ == quoting(head@, name@, tail@),
{
    let mut text = joined(head, "\"");
    text.append(name);
    text.append("\"");
    text.append(tail);
    text
}

impl SidebarNotice {
    /// The words of the notice.
    pub open spec fn words(self) -> Seq<char> {
        match self {
            SidebarNotice::ProjectExists { name } => quoting(
                "Project "@,
                name@,
                " already exists."@,
            ),
            SidebarNotice::CreatedProject { name } => quoting("Created project "@, name@, "."@),
            SidebarNotice::RenamedProject { name } => quoting("Renamed project to "@, name@, "."@),
            SidebarNotice::DeletedProject { name } => quoting("Deleted project "@, name@, "."@),
            SidebarNotice::EmptyProjectTitle => "Project title cannot be empty"@,
            SidebarNotice::RenamedSession { title } => quoting("Renamed session to "@, title@, "."@),
            SidebarNotice::DeletedSession { title } => quoting("Deleted session "@, title@, "."@),
            SidebarNotice::EmptySessionTitle => "Session title cannot be empty"@,
            SidebarNotice::EmptySnippet => "Snippet cannot be empty"@,
            SidebarNotice::AddedSnippet { name } => quoting("Added snippet "@, name@, "."@),
            SidebarNotice::UpdatedSnippet { name } => quoting("Updated snippet "@, name@, "."@),
            SidebarNotice::DeletedSnippet { name } => quoting("Deleted snippet "@, name@, "."@),
            SidebarNotice::InsertedSnippet => "Snippet inserted"@,
            SidebarNotice::Closed { count } => closed_text(count as nat),
            SidebarNotice::NoProjectSelected => "Select a project before creating a session"@,
            SidebarNotice::NothingToPin => "No active session to pin"@,
            SidebarNotice::NothingToRename => "No active session to rename"@,
            SidebarNotice::NothingToDelete => "No active session to delete"@,
            SidebarNotice::CloseFailed => "Failed to apply sidebar action"@,
            SidebarNotice::CloseCanceled => "Close action canceled"@,
            SidebarNotice::ActionFailed => "Sidebar action failed"@,
            SidebarNotice::StateNotSaved => "Failed to save sidebar state"@,
            SidebarNotice::WidthNotSaved => "Failed to save sidebar width"@,
        }
    }

    /// The words of the notice.
    pub fn text(&self) -> (r: String)
        ensures
            r@ == self.words(),
    {
        match self {
            SidebarNotice::ProjectExists { name } => quote(
                "Project ",
                name.as_str(),
                " already exists.",
            ),
            SidebarNotice::CreatedProject { name } => quote("Created project ", name.as_str(), "."),
            SidebarNotice::RenamedProject { name } => quote(
                "Renamed project to ",
                name.as_str(),
                ".",
            ),
            SidebarNotice::DeletedProject { name } => quote("Deleted project ", name.as_str(), "."),
            SidebarNotice::EmptyProjectTitle => "Project title cannot be empty".to_owned(),
            SidebarNotice::RenamedSession { title } => quote(
                "Renamed session to ",
                title.as_str(),
                ".",
            ),
            SidebarNotice::DeletedSession { title } => quote(
                "Deleted session ",
                title.as_str(),
                ".",
            ),
            SidebarNotice::EmptySessionTitle => "Session title cannot be empty".to_owned(),
            SidebarNotice::EmptySnippet => "Snippet cannot be empty".to_owned(),
            SidebarNotice::AddedSnippet { name } => quote("Added snippet ", name.as_str(), "."),
            SidebarNotice::UpdatedSnippet { name } => quote("Updated snippet ", name.as_str(), "."),
            SidebarNotice::DeletedSnippet { name } => quote("Deleted snippet ", name.as_str(), "."),
            SidebarNotice::InsertedSnippet => "Snippet inserted".to_owned(),
            SidebarNotice::Closed { count } => closed_message(*count),
            SidebarNotice::NoProjectSelected => {
                "Select a project before creating a session".to_owned()
            },
            SidebarNotice::NothingToPin => "No active session to pin".to_owned(),
            SidebarNotice::NothingToRename => "No active session to rename".to_owned(),
            SidebarNotice::NothingToDelete => "No active session to delete".to_owned(),
            SidebarNotice::CloseFailed => "Failed to apply sidebar action".to_owned(),
            SidebarNotice::CloseCanceled => "Close action canceled".to_owned(),
            SidebarNotice::ActionFailed => "Sidebar action failed".to_owned(),
            SidebarNotice::StateNotSaved => "Failed to save sidebar state".to_owned(),
            SidebarNotice::WidthNotSaved => "Failed to save sidebar width".to_owned(),
        }
    }
}

// ---------------------------------------------------------------------------
// Closing and deleting
// ---------------------------------------------------------------------------

/// Something that is done once the user has confirmed it.
#[derive(Debug, PartialEq, Eq)]
pub enum SidebarCloseAction {
    CloseOthers { project_id: String, session_id: String },
    CloseAll { project_id: String },
    DeleteSession { project_id: String, session_id: String },
    DeleteProject { project_id: String },
}

/// A question for the user, and what is done once it is confirmed.
#[derive(Debug, PartialEq, Eq)]
pub struct CloseRequest {
    pub message: String,
    pub action: SidebarCloseAction,
}

/// The answer to a wish to close the other sessions of a project: a question with how many would be
/// closed, or nothing where none would.
pub fn sidebar_request_close_other_sessions(
    bindings: &TabBindings,
    projects: &Vec<WorkspaceSidebarProject>,
    project_id: &str,
    session_id: &str,
) -> (r: Option<CloseRequest>)
    ensures
        ({
            let shown = projects.deep_view();
            let tabs = closable(
                bindings.bindings.deep_view(),
                project_id@,
                Some(session_id@),
                pinned_in(shown, project_id@),
            );
            match r {
                None => tabs.len() == 0,
                Some(request) => {
                    &&& tabs.len() > 0
                    &&& request.message@ == close_others_question(
                        tabs.len(),
                        project_name(shown, project_id@),
                        session_name(shown, project_id@, session_id@),
                    )
                    &&& request.action matches SidebarCloseAction::CloseOthers {
                        project_id: p,
                        session_id: s,
                    } && p@ == project_id@ && s@ == session_id@
                },
            }
        }),
{
    let tabs = bindings.sidebar_collect_close_other_tabs(projects, project_id, session_id);
    if tabs.len() == 0 {
        return None;
    }
    let project = sidebar_project_display_name(projects, project_id);
    let session = sidebar_session_display_name(projects, project_id, session_id);
    Some(
        CloseRequest {
            message: close_others_message(tabs.len(), project.as_str(), session.as_str()),
            action: SidebarCloseAction::CloseOthers {
                project_id: project_id.to_owned(),
                session_id: session_id.to_owned(),
            },
        },
    )
}

/// The answer to a wish to close the sessions of a project.
pub fn sidebar_request_close_all_unpinned(
    bindings: &TabBindings,
    projects: &Vec<WorkspaceSidebarProject>,
    project_id: &str,
) -> (r: Option<CloseRequest>)
    ensures
        ({
            let shown = projects.deep_view();
            let tabs = closable(
                bindings.bindings.deep_view(),
                project_id@,
                None,
                pinned_in(shown, project_id@),
            );
            match r {
                None => tabs.len() == 0,
                Some(request) => {
                    &&& tabs.len() > 0
                    &&& request.message@ == close_all_question(
                        tabs.len(),
                        project_name(shown, project_id@),
                    )
                    &&& request.action matches SidebarCloseAction::CloseAll { project_id: p } && p@
                        == project_id@
                },
            }
        }),
{
    let tabs = bindings.sidebar_collect_close_all_tabs(projects, project_id);
    if tabs.len() == 0 {
        return None;
    }
    let project = sidebar_project_display_name(projects, project_id);
    Some(
        CloseRequest {
            message: close_all_message(tabs.len(), project.as_str()),
            action: SidebarCloseAction::CloseAll { project_id: project_id.to_owned() },
        },
    )
}

/// The question before a session is deleted.
pub fn sidebar_request_delete_session(
    projects: &Vec<WorkspaceSidebarProject>,
    project_id: &str,
    session_id: &str,
) -> (r: CloseRequest)
    ensures
        r.message@ == delete_session_question(
            session_name(projects.deep_view(), project_id@, session_id@),
            project_name(projects.deep_view(), project_id@),
            session_pinned(projects.deep_view(), project_id@, session_id@) == Some(true),
        ),
        r.action matches SidebarCloseAction::DeleteSession { project_id: p, session_id: s } && p@
            == project_id@ && s@ == session_id@,
{
    let project = sidebar_project_display_name(projects, project_id);
    let session = sidebar_session_display_name(projects, project_id, session_id);
    let pinned = match sidebar_lookup_session_pinned(projects, project_id, session_id) {
        Some(pinned) => pinned,
        None => false,
    };
    CloseRequest {
        message: delete_session_message(session.as_str(), project.as_str(), pinned),
        action: SidebarCloseAction::DeleteSession {
            project_id: project_id.to_owned(),
            session_id: session_id.to_owned(),
        },
    }
}

/// The question before a project is deleted, over what is shown.
pub open spec fn project_deletion_question(
    projects: Seq<ProjectView>,
    project_id: Seq<char>,
) -> Seq<char> {
    match project_with_id(projects, project_id) {
        Some(project) => delete_project_question(
            project.name,
            project.sessions.len(),
            pinned_count(project.sessions),
        ),
        None => delete_project_question(project_id, 0, 0),
    }
}

/// The question before a project is deleted.
pub fn sidebar_request_delete_project(
    projects: &Vec<WorkspaceSidebarProject>,
    project_id: &str,
) -> (r: CloseRequest)
    ensures
        r.message@ == project_deletion_question(projects.deep_view(), project_id@),
        r.action matches SidebarCloseAction::DeleteProject { project_id: p } && p@ == project_id@,
{
    let project = sidebar_project_display_name(projects, project_id);
    let (sessions, pinned) = session_counts(projects, project_id);
    CloseRequest {
        message: delete_project_message(project.as_str(), sessions, pinned),
        action: SidebarCloseAction::DeleteProject { project_id: project_id.to_owned() },
    }
}

// ---------------------------------------------------------------------------
// Shortcuts
// ---------------------------------------------------------------------------

/// An action or a notice, over sequences.
pub open spec fn outcome(answer: Result<SidebarAction, SidebarNotice>) -> Result<
    ActionView,
    Seq<char>,
> {
    match answer {
        Ok(action) => Ok(action.deep_view()),
        Err(notice) => Err(notice.words()),
    }
}

/// What the shortcut for a new session does.
pub fn sidebar_shortcut_create_session(project: &Option<String>) -> (r: Result<
    SidebarAction,
    SidebarNotice,
>)
    ensures
        outcome(r) == match project.deep_view() {
            Some(project_id) => Ok::<ActionView, Seq<char>>(
                ActionView::CreateSessionInProject { project_id },
            ),
            None => Err("Select a project before creating a session"@),
        },
{
    match project {
        Some(project_id) => Ok(
            SidebarAction::CreateSessionInProject { project_id: project_id.clone() },
        ),
        None => Err(SidebarNotice::NoProjectSelected),
    }
}

/// What the shortcut for pinning the current session does: it asks for the opposite of what is.
pub fn sidebar_shortcut_toggle_pin_current_session(
    active: &Option<(String, String)>,
    projects: &Vec<WorkspaceSidebarProject>,
) -> (r: Result<SidebarAction, SidebarNotice>)
    ensures
        outcome(r) == match active_view(*active) {
            Some(pair) => Ok::<ActionView, Seq<char>>(
                ActionView::TogglePin {
                    project_id: pair.0,
                    session_id: pair.1,
                    pinned: session_pinned(projects.deep_view(), pair.0, pair.1) != Some(true),
                },
            ),
            None => Err("No active session to pin"@),
        },
{
    match active {
        Some(pair) => {
            let pinned = match sidebar_lookup_session_pinned(
                projects,
                pair.0.as_str(),
                pair.1.as_str(),
            ) {
                Some(pinned) => pinned,
                None => false,
            };
            Ok(
                SidebarAction::TogglePin {
                    project_id: pair.0.clone(),
                    session_id: pair.1.clone(),
                    pinned: !pinned,
                },
            )
        },
        None => Err(SidebarNotice::NothingToPin),
    }
}

/// What the shortcut for renaming the current session does.
pub fn sidebar_shortcut_rename_current_session(active: &Option<(String, String)>) -> (r: Result<
    SidebarAction,
    SidebarNotice,
>)
    ensures
        outcome(r) == match active_view(*active) {
            Some(pair) => Ok::<ActionView, Seq<char>>(
                ActionView::RenameSession { project_id: pair.0, session_id: pair.1 },
            ),
            None => Err("No active session to rename"@),
        },
{
    match active {
        Some(pair) => Ok(
            SidebarAction::RenameSession { project_id: pair.0.clone(), session_id: pair.1.clone() },
        ),
        None => Err(SidebarNotice::NothingToRename),
    }
}

/// What the shortcut for deleting the current session does.
pub fn sidebar_shortcut_delete_current_session(active: &Option<(String, String)>) -> (r: Result<
    SidebarAction,
    SidebarNotice,
>)
    ensures
        outcome(r) == match active_view(*active) {
            Some(pair) => Ok::<ActionView, Seq<char>>(
                ActionView::DeleteSession { project_id: pair.0, session_id: pair.1 },
            ),
            None => Err("No active session to delete"@),
        },
{
    match active {
        Some(pair) => Ok(
            SidebarAction::DeleteSession { project_id: pair.0.clone(), session_id: pair.1.clone() },
        ),
        None => Err(SidebarNotice::NothingToDelete),
    }
}

// ---------------------------------------------------------------------------
// Rename prompts
// ---------------------------------------------------------------------------

/// What a rename prompt leads to.
#[derive(Debug, PartialEq, Eq)]
pub enum RenameRequest {
    /// The title is blank; the user is told so.
    Blank,
    /// The title is the one there is.
    Unchanged,
    /// Rename to this title.
    Rename(String),
}

/// What a rename prompt leads to, by the title entered and the one there is.
pub fn rename_request(title: &str, previous: &str) -> (r: RenameRequest)
    ensures
        if trimmed(title@).len() == 0 {
            r is Blank
        } else if trimmed(title@) == trimmed(previous@) {
            r is Unchanged
        } else {
            r matches RenameRequest::Rename(wanted) && wanted@ == trimmed(title@)
        },
{
    let title = trim(title);
    if is_empty(title.as_str()) {
        RenameRequest::Blank
    } else if same_text(title.as_str(), trim(previous).as_str()) {
        RenameRequest::Unchanged
    } else {
        RenameRequest::Rename(title)
    }
}

} // verus!
