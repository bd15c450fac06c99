//! What can be done from the sidebar.
use vstd::prelude::*;

use crate::text::same_text;

verus! {

/// Something that can be done from the sidebar.
#[derive(Debug, PartialEq, Eq)]
pub enum SidebarAction {
    /// Ask for a new project.
    CreateProject,
    /// Make a session in a project.
    CreateSessionInProject { project_id: String },
    /// A project's row.
    ProjectRow { project_id: String },
    /// Open a project's menu.
    OpenProjectContextMenu { project_id: String },
    /// Ask for a new name of a project.
    RenameProject { project_id: String },
    /// Show a session.
    ActivateSession { project_id: String, session_id: String },
    /// Open a session's menu.
    OpenSessionContextMenu { project_id: String, session_id: String },
    /// Pin a session, or unpin it.
    TogglePin { project_id: String, session_id: String, pinned: bool },
    /// Close the other sessions of a project.
    CloseOthers { project_id: String, session_id: String },
    /// Close the sessions of a project.
    CloseAll { project_id: String },
    /// Ask for a new title of a session.
    RenameSession { project_id: String, session_id: String },
    /// Delete a session.
    DeleteSession { project_id: String, session_id: String },
    /// Delete a project.
    DeleteProject { project_id: String },
    /// Ask for a new snippet.
    CreateSnippet { project_id: String },
    /// Insert a snippet into the terminal.
    InsertSnippet { project_id: String, snippet_id: String },
    /// Open a snippet's menu.
    OpenSnippetContextMenu { project_id: String, snippet_id: String },
    /// Ask for a new content of a snippet.
    EditSnippet { project_id: String, snippet_id: String },
    /// Delete a snippet.
    DeleteSnippet { project_id: String, snippet_id: String },
}

/// A [`SidebarAction`] over sequences.
pub enum ActionView {
    CreateProject,
    CreateSessionInProject { project_id: Seq<char> },
    ProjectRow { project_id: Seq<char> },
    OpenProjectContextMenu { project_id: Seq<char> },
    RenameProject { project_id: Seq<char> },
    ActivateSession { project_id: Seq<char>, session_id: Seq<char> },
    OpenSessionContextMenu { project_id: Seq<char>, session_id: Seq<char> },
    TogglePin { project_id: Seq<char>, session_id: Seq<char>, pinned: bool },
    CloseOthers { project_id: Seq<char>, session_id: Seq<char> },
    CloseAll { project_id: Seq<char> },
    RenameSession { project_id: Seq<char>, session_id: Seq<char> },
    DeleteSession { project_id: Seq<char>, session_id: Seq<char> },
    DeleteProject { project_id: Seq<char> },
    CreateSnippet { project_id: Seq<char> },
    InsertSnippet { project_id: Seq<char>, snippet_id: Seq<char> },
    OpenSnippetContextMenu { project_id: Seq<char>, snippet_id: Seq<char> },
    EditSnippet { project_id: Seq<char>, snippet_id: Seq<char> },
    DeleteSnippet { project_id: Seq<char>, snippet_id: Seq<char> },
}

impl DeepView for SidebarAction {
    type V = ActionView;

    open spec fn deep_view(&self) -> ActionView {
        match self {
            SidebarAction::CreateProject => ActionView::CreateProject,
            SidebarAction::CreateSessionInProject { project_id } => ActionView::CreateSessionInProject {
                project_id: project_id@,
            },
            SidebarAction::ProjectRow { project_id } => ActionView::ProjectRow {
                project_id: project_id@,
            },
            SidebarAction::OpenProjectContextMenu { project_id } => ActionView::OpenProjectContextMenu {
                project_id: project_id@,
            },
            SidebarAction::RenameProject { project_id } => ActionView::RenameProject {
                project_id: project_id@,
            },
            SidebarAction::ActivateSession { project_id, session_id } => ActionView::ActivateSession {
                project_id: project_id@,
                session_id: session_id@,
            },
            SidebarAction::OpenSessionContextMenu { project_id, session_id } => ActionView::OpenSessionContextMenu {
                project_id: project_id@,
                session_id: session_id@,
            },
            SidebarAction::TogglePin { project_id, session_id, pinned } => ActionView::TogglePin {
                project_id: project_id@,
                session_id: session_id@,
                pinned: *pinned,
            },
            SidebarAction::CloseOthers { project_id, session_id } => ActionView::CloseOthers {
                project_id: project_id@,
                session_id: session_id@,
            },
            SidebarAction::CloseAll { project_id } => ActionView::CloseAll {
                project_id: project_id@,
            },
            SidebarAction::RenameSession { project_id, session_id } => ActionView::RenameSession {
                project_id: project_id@,
                session_id: session_id@,
            },
            SidebarAction::DeleteSession { project_id, session_id } => ActionView::DeleteSession {
                project_id: project_id@,
                session_id: session_id@,
            },
            SidebarAction::DeleteProject { project_id } => ActionView::DeleteProject {
                project_id: project_id@,
            },
            SidebarAction::CreateSnippet { project_id } => ActionView::CreateSnippet {
                project_id: project_id@,
            },
            SidebarAction::InsertSnippet { project_id, snippet_id } => ActionView::InsertSnippet {
                project_id: project_id@,
                snippet_id: snippet_id@,
            },
            SidebarAction::OpenSnippetContextMenu { project_id, snippet_id } => ActionView::OpenSnippetContextMenu {
                project_id: project_id@,
                snippet_id: snippet_id@,
            },
            SidebarAction::EditSnippet { project_id, snippet_id } => ActionView::EditSnippet {
                project_id: project_id@,
                snippet_id: snippet_id@,
            },
            SidebarAction::DeleteSnippet { project_id, snippet_id } => ActionView::DeleteSnippet {
                project_id: project_id@,
                snippet_id: snippet_id@,
            },
        }
    }
}

impl Clone for SidebarAction {
    fn clone(&self) -> (r: SidebarAction)
        ensures
            r.deep_view() == self.deep_view(),
    {
        match self {
            SidebarAction::CreateProject => SidebarAction::CreateProject,
            SidebarAction::CreateSessionInProject { project_id } => SidebarAction::CreateSessionInProject {
                project_id: project_id.clone(),
            },
            SidebarAction::ProjectRow { project_id } => SidebarAction::ProjectRow {
                project_id: project_id.clone(),
            },
            SidebarAction::OpenProjectContextMenu { project_id } => SidebarAction::OpenProjectContextMenu {
                project_id: project_id.clone(),
            },
            SidebarAction::RenameProject { project_id } => SidebarAction::RenameProject {
                project_id: project_id.clone(),
            },
            SidebarAction::ActivateSession { project_id, session_id } => SidebarAction::ActivateSession {
                project_id: project_id.clone(),
                session_id: session_id.clone(),
            },
            SidebarAction::OpenSessionContextMenu { project_id, session_id } => SidebarAction::OpenSessionContextMenu {
                project_id: project_id.clone(),
                session_id: session_id.clone(),
            },
            SidebarAction::TogglePin { project_id, session_id, pinned } => SidebarAction::TogglePin {
                project_id: project_id.clone(),
                session_id: session_id.clone(),
                pinned: *pinned,
            },
            SidebarAction::CloseOthers { project_id, session_id } => SidebarAction::CloseOthers {
                project_id: project_id.clone(),
                session_id: session_id.clone(),
            },
            SidebarAction::CloseAll { project_id } => SidebarAction::CloseAll {
                project_id: project_id.clone(),
            },
            SidebarAction::RenameSession { project_id, session_id } => SidebarAction::RenameSession {
                project_id: project_id.clone(),
                session_id: session_id.clone(),
            },
            SidebarAction::DeleteSession { project_id, session_id } => SidebarAction::DeleteSession {
                project_id: project_id.clone(),
                session_id: session_id.clone(),
            },
            SidebarAction::DeleteProject { project_id } => SidebarAction::DeleteProject {
                project_id: project_id.clone(),
            },
            SidebarAction::CreateSnippet { project_id } => SidebarAction::CreateSnippet {
                project_id: project_id.clone(),
            },
            SidebarAction::InsertSnippet { project_id, snippet_id } => SidebarAction::InsertSnippet {
                project_id: project_id.clone(),
                snippet_id: snippet_id.clone(),
            },
            SidebarAction::OpenSnippetContextMenu { project_id, snippet_id } => SidebarAction::OpenSnippetContextMenu {
                project_id: project_id.clone(),
                snippet_id: snippet_id.clone(),
            },
            SidebarAction::EditSnippet { project_id, snippet_id } => SidebarAction::EditSnippet {
                project_id: project_id.clone(),
                snippet_id: snippet_id.clone(),
            },
            SidebarAction::DeleteSnippet { project_id, snippet_id } => SidebarAction::DeleteSnippet {
                project_id: project_id.clone(),
                snippet_id: snippet_id.clone(),
            },
        }
    }
}

impl SidebarAction {
    /// Whether this is that action.
    pub fn same_as(&self, other: &SidebarAction) -> (r: bool)
        ensures
            r == (self.deep_view() == other.deep_view()),
    {
        match (self, other) {
            (SidebarAction::CreateProject, SidebarAction::CreateProject) => true,
            (
                SidebarAction::CreateSessionInProject { project_id },
                SidebarAction::CreateSessionInProject { project_id: project_id_other },
            ) => same_text(project_id.as_str(), project_id_other.as_str()),
            (
                SidebarAction::ProjectRow { project_id },
                SidebarAction::ProjectRow { project_id: project_id_other },
            ) => same_text(project_id.as_str(), project_id_other.as_str()),
            (
                SidebarAction::OpenProjectContextMenu { project_id },
                SidebarAction::OpenProjectContextMenu { project_id: project_id_other },
            ) => same_text(project_id.as_str(), project_id_other.as_str()),
            (
                SidebarAction::RenameProject { project_id },
                SidebarAction::RenameProject { project_id: project_id_other },
            ) => same_text(project_id.as_str(), project_id_other.as_str()),
            (
                SidebarAction::ActivateSession { project_id, session_id },
                SidebarAction::ActivateSession { project_id: project_id_other, session_id: session_id_other },
            ) => same_text(project_id.as_str(), project_id_other.as_str()) && same_text(session_id.as_str(), session_id_other.as_str()),
            (
                SidebarAction::OpenSessionContextMenu { project_id, session_id },
                SidebarAction::OpenSessionContextMenu { project_id: project_id_other, session_id: session_id_other },
            ) => same_text(project_id.as_str(), project_id_other.as_str()) && same_text(session_id.as_str(), session_id_other.as_str()),
            (
                SidebarAction::TogglePin { project_id, session_id, pinned },
                SidebarAction::TogglePin { project_id: project_id_other, session_id: session_id_other, pinned: pinned_other },
            ) => same_text(project_id.as_str(), project_id_other.as_str()) && same_text(session_id.as_str(), session_id_other.as_str()) && *pinned == *pinned_other,
            (
                SidebarAction::CloseOthers { project_id, session_id },
                SidebarAction::CloseOthers { project_id: project_id_other, session_id: session_id_other },
            ) => same_text(project_id.as_str(), project_id_other.as_str()) && same_text(session_id.as_str(), session_id_other.as_str()),
            (
                SidebarAction::CloseAll { project_id },
                SidebarAction::CloseAll { project_id: project_id_other },
            ) => same_text(project_id.as_str(), project_id_other.as_str()),
            (
                SidebarAction::RenameSession { project_id, session_id },
                SidebarAction::RenameSession { project_id: project_id_other, session_id: session_id_other },
            ) => same_text(project_id.as_str(), project_id_other.as_str()) && same_text(session_id.as_str(), session_id_other.as_str()),
            (
                SidebarAction::DeleteSession { project_id, session_id },
                SidebarAction::DeleteSession { project_id: project_id_other, session_id: session_id_other },
            ) => same_text(project_id.as_str(), project_id_other.as_str()) && same_text(session_id.as_str(), session_id_other.as_str()),
            (
                SidebarAction::DeleteProject { project_id },
                SidebarAction::DeleteProject { project_id: project_id_other },
            ) => same_text(project_id.as_str(), project_id_other.as_str()),
            (
                SidebarAction::CreateSnippet { project_id },
                SidebarAction::CreateSnippet { project_id: project_id_other },
            ) => same_text(project_id.as_str(), project_id_other.as_str()),
            (
                SidebarAction::InsertSnippet { project_id, snippet_id },
                SidebarAction::InsertSnippet { project_id: project_id_other, snippet_id: snippet_id_other },
            ) => same_text(project_id.as_str(), project_id_other.as_str()) && same_text(snippet_id.as_str(), snippet_id_other.as_str()),
            (
                SidebarAction::OpenSnippetContextMenu { project_id, snippet_id },
                SidebarAction::OpenSnippetContextMenu { project_id: project_id_other, snippet_id: snippet_id_other },
            ) => same_text(project_id.as_str(), project_id_other.as_str()) && same_text(snippet_id.as_str(), snippet_id_other.as_str()),
            (
                SidebarAction::EditSnippet { project_id, snippet_id },
                SidebarAction::EditSnippet { project_id: project_id_other, snippet_id: snippet_id_other },
            ) => same_text(project_id.as_str(), project_id_other.as_str()) && same_text(snippet_id.as_str(), snippet_id_other.as_str()),
            (
                SidebarAction::DeleteSnippet { project_id, snippet_id },
                SidebarAction::DeleteSnippet { project_id: project_id_other, snippet_id: snippet_id_other },
            ) => same_text(project_id.as_str(), project_id_other.as_str()) && same_text(snippet_id.as_str(), snippet_id_other.as_str()),
            _ => false,
        }
    }
}

/// The action opens a menu, and so needs to know where the pointer is.
pub open spec fn opens_menu(action: ActionView) -> bool {
    action is OpenSessionContextMenu || action is OpenProjectContextMenu
        || action is OpenSnippetContextMenu
}

/// Whether an action needs to know where the pointer is.
pub fn sidebar_action_needs_pointer_position(action: &SidebarAction) -> (r: bool)
    ensures
        r == opens_menu(action.deep_view()),
{
    matches!(
        action,
        SidebarAction::OpenSessionContextMenu { .. } | SidebarAction::OpenProjectContextMenu { .. }
            | SidebarAction::OpenSnippetContextMenu { .. }
    )
}

/// Performing the action changes nothing: a project's row does nothing, and menus are opened where
/// the pointer is.
pub open spec fn inert(action: ActionView) -> bool {
    action is ProjectRow || opens_menu(action)
}

/// Whether performing the action changes nothing.
pub fn sidebar_action_is_inert(action: &SidebarAction) -> (r: bool)
    ensures
        r == inert(action.deep_view()),
{
    match action {
        SidebarAction::ProjectRow { .. } => true,
        _ => sidebar_action_needs_pointer_position(action),
    }
}

} // verus!
