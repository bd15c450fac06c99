//! The menus of the sidebar: what they offer, and how keys and the pointer work them.
use vstd::prelude::*;

use crate::sidebar::action::{ActionView, SidebarAction};
use crate::sidebar::labels::{session_pinned, sidebar_lookup_session_pinned};
use crate::sidebar::model::WorkspaceSidebarProject;
use crate::sidebar::ui::{clamped, menu_anchor, sidebar_menu_anchor, UIItem};

verus! {

/// How an item is set off.
#[derive(Debug, Clone, Copy, PartialEq, Eq, Structural)]
pub enum SidebarContextMenuTone {
    Default,
    Danger,
}

/// An item of a menu.
#[derive(Debug, PartialEq, Eq)]
pub struct SidebarContextMenuItem {
    pub label: String,
    pub action: SidebarAction,
    pub tone: SidebarContextMenuTone,
}

/// A [`SidebarContextMenuItem`] over sequences.
pub struct MenuItemView {
    pub label: Seq<char>,
    pub action: ActionView,
    pub tone: SidebarContextMenuTone,
}

impl DeepView for SidebarContextMenuItem {
    type V = MenuItemView;

    open spec fn deep_view(&self) -> MenuItemView {
        MenuItemView { label: self.label@, action: self.action.deep_view(), tone: self.tone }
    }
}

impl Clone for SidebarContextMenuItem {
    fn clone(&self) -> (r: SidebarContextMenuItem)
        ensures
            r.deep_view() == self.deep_view(),
    {
        SidebarContextMenuItem {
            label: self.label.clone(),
            action: self.action.clone(),
            tone: self.tone,
        }
    }
}

/// An ordinary item.
pub open spec fn plain_item(label: Seq<char>, action: ActionView) -> MenuItemView {
    MenuItemView { label, action, tone: SidebarContextMenuTone::Default }
}

/// An item that destroys something.
pub open spec fn danger_item(label: Seq<char>, action: ActionView) -> MenuItemView {
    MenuItemView { label, action, tone: SidebarContextMenuTone::Danger }
}

impl SidebarContextMenuItem {
    /// An ordinary item.
    pub fn new(label: &str, action: SidebarAction) -> (r: SidebarContextMenuItem)
        ensures
            r.deep_view() == plain_item(label@, action.deep_view()),
    {
        SidebarContextMenuItem {
            label: label.to_owned(),
            action,
            tone: SidebarContextMenuTone::Default,
        }
    }

    /// An item that destroys something.
    pub fn danger(label: &str, action: SidebarAction) -> (r: SidebarContextMenuItem)
        ensures
            r.deep_view() == danger_item(label@, action.deep_view()),
    {
        SidebarContextMenuItem {
            label: label.to_owned(),
            action,
            tone: SidebarContextMenuTone::Danger,
        }
    }
}

/// The menu of a project.
pub open spec fn project_menu(project_id: Seq<char>) -> Seq<MenuItemView> {
    seq![
        plain_item("New Session"@, ActionView::CreateSessionInProject { project_id }),
        plain_item("Rename Project"@, ActionView::RenameProject { project_id }),
        danger_item("Delete Project"@, ActionView::DeleteProject { project_id }),
    ]
}

/// The menu of a session.
pub open spec fn session_menu(
    project_id: Seq<char>,
    session_id: Seq<char>,
    pinned: bool,
) -> Seq<MenuItemView> {
    seq![
        plain_item("Open Session"@, ActionView::ActivateSession { project_id, session_id }),
        plain_item("Rename Session"@, ActionView::RenameSession { project_id, session_id }),
        plain_item(
            if pinned {
                "Unpin Session"@
            } else {
                "Pin Session"@
            },
            ActionView::TogglePin { project_id, session_id, pinned: !pinned },
        ),
        plain_item(
            "Close Others (keep pinned)"@,
            ActionView::CloseOthers { project_id, session_id },
        ),
        danger_item("Delete Session"@, ActionView::DeleteSession { project_id, session_id }),
    ]
}

/// The menu of a snippet.
pub open spec fn snippet_menu(project_id: Seq<char>, snippet_id: Seq<char>) -> Seq<MenuItemView> {
    seq![
        plain_item("Insert Snippet"@, ActionView::InsertSnippet { project_id, snippet_id }),
        plain_item("Edit Snippet"@, ActionView::EditSnippet { project_id, snippet_id }),
        danger_item("Delete Snippet"@, ActionView::DeleteSnippet { project_id, snippet_id }),
    ]
}

/// The menu of a project.
pub fn project_context_menu(project_id: &str) -> (r: Vec<SidebarContextMenuItem>)
    ensures
        r.deep_view() == project_menu(project_id@),
{
    let mut items: Vec<SidebarContextMenuItem> = Vec::new();
    items.push(
        SidebarContextMenuItem::new(
            "New Session",
            SidebarAction::CreateSessionInProject { project_id: project_id.to_owned() },
        ),
    );
    items.push(
        SidebarContextMenuItem::new(
            "Rename Project",
            SidebarAction::RenameProject { project_id: project_id.to_owned() },
        ),
    );
    items.push(
        SidebarContextMenuItem::danger(
            "Delete Project",
            SidebarAction::DeleteProject { project_id: project_id.to_owned() },
        ),
    );
    assert(items.deep_view() =~= project_menu(project_id@));
    items
}

/// The menu of a session.
pub fn session_context_menu(project_id: &str, session_id: &str, pinned: bool) -> (r: Vec<
    SidebarContextMenuItem,
>)
    ensures
        r.deep_view() == session_menu(project_id@, session_id@, pinned),
{
    let mut items: Vec<SidebarContextMenuItem> = Vec::new();
    items.push(
        SidebarContextMenuItem::new(
            "Open Session",
            SidebarAction::ActivateSession {
                project_id: project_id.to_owned(),
                session_id: session_id.to_owned(),
            },
        ),
    );
    items.push(
        SidebarContextMenuItem::new(
            "Rename Session",
            SidebarAction::RenameSession {
                project_id: project_id.to_owned(),
                session_id: session_id.to_owned(),
            },
        ),
    );
    items.push(
        SidebarContextMenuItem::new(
            if pinned {
                "Unpin Session"
            } else {
                "Pin Session"
            },
            SidebarAction::TogglePin {
                project_id: project_id.to_owned(),
                session_id: session_id.to_owned(),
                pinned: !pinned,
            },
        ),
    );
    items.push(
        SidebarContextMenuItem::new(
            "Close Others (keep pinned)",
            SidebarAction::CloseOthers {
                project_id: project_id.to_owned(),
                session_id: session_id.to_owned(),
            },
        ),
    );
    items.push(
        SidebarContextMenuItem::danger(
            "Delete Session",
            SidebarAction::DeleteSession {
                project_id: project_id.to_owned(),
                session_id: session_id.to_owned(),
            },
        ),
    );
    assert(items.deep_view() =~= session_menu(project_id@, session_id@, pinned));
    items
}

/// The menu of a snippet.
pub fn snippet_context_menu(project_id: &str, snippet_id: &str) -> (r: Vec<SidebarContextMenuItem>)
    ensures
        r.deep_view() == snippet_menu(project_id@, snippet_id@),
{
    let mut items: Vec<SidebarContextMenuItem> = Vec::new();
    items.push(
        SidebarContextMenuItem::new(
            "Insert Snippet",
            SidebarAction::InsertSnippet {
                project_id: project_id.to_owned(),
                snippet_id: snippet_id.to_owned(),
            },
        ),
    );
    items.push(
        SidebarContextMenuItem::new(
            "Edit Snippet",
            SidebarAction::EditSnippet {
                project_id: project_id.to_owned(),
                snippet_id: snippet_id.to_owned(),
            },
        ),
    );
    items.push(
        SidebarContextMenuItem::danger(
            "Delete Snippet",
            SidebarAction::DeleteSnippet {
                project_id: project_id.to_owned(),
                snippet_id: snippet_id.to_owned(),
            },
        ),
    );
    assert(items.deep_view() =~= snippet_menu(project_id@, snippet_id@));
    items
}

/// A key as menus know it.
#[derive(Debug, Clone, Copy, PartialEq, Eq, Structural)]
pub enum MenuKey {
    Escape,
    Enter,
    UpArrow,
    DownArrow,
    Char(char),
    Other,
}

/// The modifiers held with a key, as menus know them.
#[derive(Debug, Clone, Copy, PartialEq, Eq, Structural)]
pub enum MenuModifiers {
    NoneHeld,
    Ctrl,
    Other,
}

/// What the pointer does, as menus know it.
#[derive(Debug, Clone, Copy, PartialEq, Eq, Structural)]
pub enum MenuPointer {
    /// It moves with no button or the left one held.
    Move,
    PressLeft,
    PressRight,
    WheelUp(usize),
    WheelDown(usize),
    /// Some other button is pressed.
    PressOther,
    Other,
}

/// What a menu wants after a key or the pointer.
#[derive(Debug, PartialEq, Eq)]
pub enum MenuReaction {
    Nothing,
    Redraw,
    Close,
    /// Close the menu and do this.
    Run(SidebarAction),
}

/// A [`MenuReaction`] over sequences.
pub enum ReactionView {
    Nothing,
    Redraw,
    Close,
    Run(ActionView),
}

impl DeepView for MenuReaction {
    type V = ReactionView;

    open spec fn deep_view(&self) -> ReactionView {
        match self {
            MenuReaction::Nothing => ReactionView::Nothing,
            MenuReaction::Redraw => ReactionView::Redraw,
            MenuReaction::Close => ReactionView::Close,
            MenuReaction::Run(action) => ReactionView::Run(action.deep_view()),
        }
    }
}

/// An open menu.
pub struct SidebarContextMenuModal {
    pub anchor: UIItem,
    pub items: Vec<SidebarContextMenuItem>,
    pub selected_row: usize,
}

/// The row that is selected after a move; it stays within the menu.
pub open spec fn row_after(selected: int, delta: int, count: int) -> int {
    clamped(selected + delta, 0, count - 1)
}

/// How far the wheel moves the selection.
pub open spec fn wheel_rows(lines: usize) -> int {
    clamped(lines as int, 1, 4)
}

/// The row that is selected after the pointer did something over a row, or over none.
pub open spec fn row_after_pointer(
    selected: int,
    count: int,
    pointer: MenuPointer,
    row: Option<usize>,
) -> int {
    match pointer {
        MenuPointer::Move => if row is Some && row->0 < count {
            row->0 as int
        } else {
            selected
        },
        MenuPointer::PressLeft => if row is Some && row->0 < count {
            row->0 as int
        } else {
            selected
        },
        MenuPointer::WheelUp(lines) => row_after(selected, -wheel_rows(lines), count),
        MenuPointer::WheelDown(lines) => row_after(selected, wheel_rows(lines), count),
        _ => selected,
    }
}

/// What a menu wants after the pointer did something over a row, or over none.
pub open spec fn pointer_reaction(
    items: Seq<MenuItemView>,
    selected: int,
    pointer: MenuPointer,
    row: Option<usize>,
) -> ReactionView {
    let after = row_after_pointer(selected, items.len() as int, pointer, row);
    match pointer {
        MenuPointer::PressLeft => if row is Some {
            ReactionView::Run(items[after].action)
        } else {
            ReactionView::Close
        },
        MenuPointer::PressRight => ReactionView::Close,
        MenuPointer::PressOther => ReactionView::Close,
        MenuPointer::Other => ReactionView::Nothing,
        _ => if after != selected {
            ReactionView::Redraw
        } else {
            ReactionView::Nothing
        },
    }
}

/// The row that a digit key stands for, counted from one.
pub open spec fn digit_row(c: char) -> Option<int> {
    if '1' <= c && c <= '9' {
        Some(c as int - '1' as int)
    } else {
        None
    }
}

/// How far a key moves the selection.
pub open spec fn key_delta(key: MenuKey) -> int {
    if key == MenuKey::UpArrow || key == MenuKey::Char('k') {
        -1
    } else if key == MenuKey::DownArrow || key == MenuKey::Char('j') {
        1
    } else {
        0
    }
}

/// The row that is selected after a key.
pub open spec fn row_after_key(
    selected: int,
    count: int,
    key: MenuKey,
    modifiers: MenuModifiers,
) -> int {
    if modifiers is NoneHeld {
        if key_delta(key) != 0 {
            row_after(selected, key_delta(key), count)
        } else {
            match key {
                MenuKey::Char(c) => match digit_row(c) {
                    Some(row) => if row < count {
                        row
                    } else {
                        selected
                    },
                    None => selected,
                },
                _ => selected,
            }
        }
    } else {
        selected
    }
}

/// What a menu wants after a key; a key that it has no use for leads to nothing.
pub open spec fn key_reaction(
    items: Seq<MenuItemView>,
    selected: int,
    key: MenuKey,
    modifiers: MenuModifiers,
) -> ReactionView {
    let count = items.len() as int;
    if modifiers is Ctrl && key == MenuKey::Char('g') {
        ReactionView::Close
    } else if modifiers is NoneHeld {
        match key {
            MenuKey::Escape => ReactionView::Close,
            MenuKey::Enter => ReactionView::Run(items[selected].action),
            _ => if key_delta(key) != 0 {
                if row_after(selected, key_delta(key), count) != selected {
                    ReactionView::Redraw
                } else {
                    ReactionView::Nothing
                }
            } else {
                match key {
                    MenuKey::Char(c) => match digit_row(c) {
                        Some(row) => if row < count {
                            ReactionView::Run(items[row].action)
                        } else {
                            ReactionView::Nothing
                        },
                        None => ReactionView::Nothing,
                    },
                    _ => ReactionView::Nothing,
                }
            },
        }
    } else {
        ReactionView::Nothing
    }
}

impl SidebarContextMenuModal {
    /// The menu has items, and one of them is selected.
    pub open spec fn wf(&self) -> bool {
        self.selected_row < self.items@.len()
    }

    /// Only the selection may differ.
    pub open spec fn same_menu(&self, other: &SidebarContextMenuModal) -> bool {
        self.anchor == other.anchor && self.items == other.items
    }

    /// A menu with its first item selected; a menu without items is an error.
    pub fn new(anchor: UIItem, items: Vec<SidebarContextMenuItem>) -> (r: Result<
        SidebarContextMenuModal,
        String,
    >)
        ensures
            match r {
                Ok(menu) => items@.len() > 0 && menu.wf() && menu.anchor == anchor && menu.items
                    == items && menu.selected_row == 0,
                Err(message) => items@.len() == 0 && message@
                    == "sidebar context menu requires at least one item"@,
            },
    {
        if items.len() == 0 {
            return Err("sidebar context menu requires at least one item".to_owned());
        }
        Ok(SidebarContextMenuModal { anchor, items, selected_row: 0 })
    }

    /// Selects a row, where there is one; true where that changed the selection.
    pub fn set_selection(&mut self, row: usize) -> (r: bool)
        requires
            old(self).wf(),
        ensures
            final(self).wf(),
            final(self).same_menu(old(self)),
            final(self).selected_row == if row < old(self).items@.len() {
                row
            } else {
                old(self).selected_row
            },
            r == (final(self).selected_row != old(self).selected_row),
    {
        if row >= self.items.len() {
            return false;
        }
        if self.selected_row == row {
            return false;
        }
        self.selected_row = row;
        true
    }

    /// Moves the selection, within the menu; true where that changed it.
    pub fn move_selection(&mut self, delta: isize) -> (r: bool)
        requires
            old(self).wf(),
        ensures
            final(self).wf(),
            final(self).same_menu(old(self)),
            final(self).selected_row == row_after(
                old(self).selected_row as int,
                delta as int,
                old(self).items@.len() as int,
            ),
            r == (final(self).selected_row != old(self).selected_row),
    {
        let target: i128 = self.selected_row as i128 + delta as i128;
        let last: usize = self.items.len() - 1;
        let row: usize = if target < 0 {
            0
        } else if target > last as i128 {
            last
        } else {
            target as usize
        };
        self.set_selection(row)
    }

    /// The action of the selected item.
    pub fn selected_action(&self) -> (r: SidebarAction)
        requires
            self.wf(),
        ensures
            r.deep_view() == self.items.deep_view()[self.selected_row as int].action,
    {
        self.items[self.selected_row].action.clone()
    }

    /// Works the menu with the pointer, which is over a row or over none.
    pub fn mouse_event(&mut self, pointer: MenuPointer, row: Option<usize>) -> (r: MenuReaction)
        requires
            old(self).wf(),
        ensures
            final(self).wf(),
            final(self).same_menu(old(self)),
            final(self).selected_row == row_after_pointer(
                old(self).selected_row as int,
                old(self).items@.len() as int,
                pointer,
                row,
            ),
            r.deep_view() == pointer_reaction(
                old(self).items.deep_view(),
                old(self).selected_row as int,
                pointer,
                row,
            ),
    {
        assert(self.items.deep_view().len() == self.items@.len());
        match pointer {
            MenuPointer::Move => match row {
                Some(over) => if self.set_selection(over) {
                    MenuReaction::Redraw
                } else {
                    MenuReaction::Nothing
                },
                None => MenuReaction::Nothing,
            },
            MenuPointer::PressLeft => match row {
                Some(over) => {
                    self.set_selection(over);
                    MenuReaction::Run(self.selected_action())
                },
                None => MenuReaction::Close,
            },
            MenuPointer::PressRight => MenuReaction::Close,
            MenuPointer::WheelUp(lines) => {
                let rows: isize = if lines < 1 {
                    1
                } else if lines > 4 {
                    4
                } else {
                    lines as isize
                };
                if self.move_selection(-rows) {
                    MenuReaction::Redraw
                } else {
                    MenuReaction::Nothing
                }
            },
            MenuPointer::WheelDown(lines) => {
                let rows: isize = if lines < 1 {
                    1
                } else if lines > 4 {
                    4
                } else {
                    lines as isize
                };
                if self.move_selection(rows) {
                    MenuReaction::Redraw
                } else {
                    MenuReaction::Nothing
                }
            },
            MenuPointer::PressOther => MenuReaction::Close,
            MenuPointer::Other => MenuReaction::Nothing,
        }
    }

    /// Works the menu with a key; a key that it has no use for leads to nothing.
    pub fn key_down(&mut self, key: MenuKey, modifiers: MenuModifiers) -> (r: MenuReaction)
        requires
            old(self).wf(),
        ensures
            final(self).wf(),
            final(self).same_menu(old(self)),
            final(self).selected_row == row_after_key(
                old(self).selected_row as int,
                old(self).items@.len() as int,
                key,
                modifiers,
            ),
            r.deep_view() == key_reaction(
                old(self).items.deep_view(),
                old(self).selected_row as int,
                key,
                modifiers,
            ),
    {
        assert(self.items.deep_view().len() == self.items@.len());
        match modifiers {
            MenuModifiers::Ctrl => match key {
                MenuKey::Char(c) => if c == 'g' {
                    MenuReaction::Close
                } else {
                    MenuReaction::Nothing
                },
                _ => MenuReaction::Nothing,
            },
            MenuModifiers::Other => MenuReaction::Nothing,
            MenuModifiers::NoneHeld => match key {
                MenuKey::Escape => MenuReaction::Close,
                MenuKey::Enter => MenuReaction::Run(self.selected_action()),
                MenuKey::UpArrow => if self.move_selection(-1) {
                    MenuReaction::Redraw
                } else {
                    MenuReaction::Nothing
                },
                MenuKey::DownArrow => if self.move_selection(1) {
                    MenuReaction::Redraw
                } else {
                    MenuReaction::Nothing
                },
                MenuKey::Char(c) => {
                    if c == 'k' {
                        if self.move_selection(-1) {
                            MenuReaction::Redraw
                        } else {
                            MenuReaction::Nothing
                        }
                    } else if c == 'j' {
                        if self.move_selection(1) {
                            MenuReaction::Redraw
                        } else {
                            MenuReaction::Nothing
                        }
                    } else if '1' <= c && c <= '9' {
                        let row: usize = c as usize - '1' as usize;
                        if row < self.items.len() {
                            self.set_selection(row);
                            MenuReaction::Run(self.selected_action())
                        } else {
                            MenuReaction::Nothing
                        }
                    } else {
                        MenuReaction::Nothing
                    }
                },
                MenuKey::Other => MenuReaction::Nothing,
            },
        }
    }
}

/// Where a menu opens: the pointer, the width of the sidebar and the height of a text cell.
#[derive(Debug, Clone, Copy, PartialEq, Eq, Structural)]
pub struct MenuPlace {
    pub mouse_x: isize,
    pub mouse_y: isize,
    pub reserved_width_px: usize,
    pub cell_height: isize,
}

/// The menu has these items, stands at its place, and its first item is selected.
pub open spec fn opened(
    menu: SidebarContextMenuModal,
    items: Seq<MenuItemView>,
    place: MenuPlace,
) -> bool {
    &&& menu.wf()
    &&& menu.items.deep_view() == items
    &&& menu.selected_row == 0
    &&& menu.anchor.deep_view() == menu_anchor(
        place.mouse_x,
        place.mouse_y,
        place.reserved_width_px,
        place.cell_height,
    )
}

fn open_menu(items: Vec<SidebarContextMenuItem>, place: MenuPlace) -> (r: SidebarContextMenuModal)
    requires
        items@.len() > 0,
    ensures
        opened(r, items.deep_view(), place),
{
    SidebarContextMenuModal {
        anchor: sidebar_menu_anchor(
            place.mouse_x,
            place.mouse_y,
            place.reserved_width_px,
            place.cell_height,
        ),
        items,
        selected_row: 0,
    }
}

/// Opens the menu of a project.
pub fn sidebar_open_project_context_menu(project_id: &str, place: MenuPlace) -> (r:
    SidebarContextMenuModal)
    ensures
        opened(r, project_menu(project_id@), place),
{
    let items = project_context_menu(project_id);
    assert(items.deep_view().len() == items@.len());
    open_menu(items, place)
}

/// Opens the menu of a session, which offers to unpin it where it is pinned.
pub fn sidebar_open_session_context_menu(
    projects: &Vec<WorkspaceSidebarProject>,
    project_id: &str,
    session_id: &str,
    place: MenuPlace,
) -> (r: SidebarContextMenuModal)
    ensures
        opened(
            r,
            session_menu(
                project_id@,
                session_id@,
                session_pinned(projects.deep_view(), project_id@, session_id@) == Some(true),
            ),
            place,
        ),
{
    let pinned = match sidebar_lookup_session_pinned(projects, project_id, session_id) {
        Some(pinned) => pinned,
        None => false,
    };
    let items = session_context_menu(project_id, session_id, pinned);
    assert(items.deep_view().len() == items@.len());
    open_menu(items, place)
}

/// Opens the menu of a snippet.
pub fn sidebar_open_snippet_context_menu(
    project_id: &str,
    snippet_id: &str,
    place: MenuPlace,
) -> (r: SidebarContextMenuModal)
    ensures
        opened(r, snippet_menu(project_id@, snippet_id@), place),
{
    let items = snippet_context_menu(project_id, snippet_id);
    assert(items.deep_view().len() == items@.len());
    open_menu(items, place)
}

/// How many columns the widest label takes, by the columns of each; a fixed number where there are
/// no labels.
pub open spec fn widest(columns: Seq<usize>) -> int
    decreases columns.len(),
{
    if columns.len() == 0 {
        8
    } else if columns.len() == 1 {
        columns[0] as int
    } else {
        let rest = widest(columns.drop_last());
        if columns.last() > rest {
            columns.last() as int
        } else {
            rest
        }
    }
}

/// How many columns the widest label takes, by the columns of each.
pub fn max_columns(columns: &Vec<usize>) -> (r: usize)
    ensures
        r == widest(columns@),
{
    if columns.len() == 0 {
        return 8;
    }
    let mut best: usize = columns[0];
    let mut i: usize = 1;
    assert(columns@.take(1)[0] == columns@[0]);
    while i < columns.len()
        invariant
            1 <= i <= columns@.len(),
            best == widest(columns@.take(i as int)),
        decreases columns@.len() - i,
    {
        assert(columns@.take(i + 1).drop_last() =~= columns@.take(i as int));
        assert(columns@.take(i + 1).last() == columns@[i as int]);
        if columns[i] > best {
            best = columns[i];
        }
        i = i + 1;
    }
    assert(columns@.take(i as int) =~= columns@);
    best
}

/// Moving down and up again brings the selection back, unless it stood on the last row.
pub proof fn law_move_and_back(selected: int, count: int)
    requires
        0 <= selected < count - 1,
    ensures
        row_after(row_after(selected, 1, count), -1, count) == selected,
{
}

/// Every item of a session's menu is about that session; only the last one destroys it, and the pin
/// item asks for the opposite of what is.
pub proof fn law_session_menu(project_id: Seq<char>, session_id: Seq<char>, pinned: bool, i: int)
    requires
        0 <= i < session_menu(project_id, session_id, pinned).len(),
    ensures
        session_menu(project_id, session_id, pinned)[i].tone is Danger <==> i == 4,
        session_menu(project_id, session_id, pinned)[i].action is DeleteSession <==> i == 4,
        session_menu(project_id, session_id, pinned)[2].action == (ActionView::TogglePin {
            project_id,
            session_id,
            pinned: !pinned,
        }),
{
}

} // verus!
