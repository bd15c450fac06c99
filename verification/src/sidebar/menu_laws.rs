//! What holds of the context menus: what they offer, and what keys and the pointer do in them.
use vstd::prelude::*;

use crate::sidebar::action::ActionView;
use crate::sidebar::context_menu::{
    key_reaction, pointer_reaction, project_menu, row_after, row_after_key, row_after_pointer,
    session_menu, snippet_menu, wheel_rows, MenuItemView, MenuKey, MenuModifiers, MenuPointer,
    ReactionView,
};
use crate::text::begins;

verus! {

/// The action deletes something for good.
pub open spec fn deletes(action: ActionView) -> bool {
    action is DeleteProject || action is DeleteSession || action is DeleteSnippet
}

/// An item is marked as dangerous, and labelled so, exactly where it deletes something.
pub open spec fn marked_rightly(item: MenuItemView) -> bool {
    &&& item.tone is Danger <==> deletes(item.action)
    &&& begins(item.label, "Delete "@) <==> deletes(item.action)
}

proof fn lemma_labels()
    ensures
        begins("Delete Project"@, "Delete "@),
        begins("Delete Session"@, "Delete "@),
        begins("Delete Snippet"@, "Delete "@),
        !begins("New Session"@, "Delete "@),
        !begins("Rename Project"@, "Delete "@),
        !begins("Open Session"@, "Delete "@),
        !begins("Rename Session"@, "Delete "@),
        !begins("Pin Session"@, "Delete "@),
        !begins("Unpin Session"@, "Delete "@),
        !begins("Close Others (keep pinned)"@, "Delete "@),
        !begins("Insert Snippet"@, "Delete "@),
        !begins("Edit Snippet"@, "Delete "@),
{
    reveal_strlit("Delete ");
    reveal_strlit("Delete Project");
    reveal_strlit("Delete Session");
    reveal_strlit("Delete Snippet");
    reveal_strlit("New Session");
    reveal_strlit("Rename Project");
    reveal_strlit("Open Session");
    reveal_strlit("Rename Session");
    reveal_strlit("Pin Session");
    reveal_strlit("Unpin Session");
    reveal_strlit("Close Others (keep pinned)");
    reveal_strlit("Insert Snippet");
    reveal_strlit("Edit Snippet");
    assert("Delete Project"@.subrange(0, 7) =~= "Delete "@);
    assert("Delete Session"@.subrange(0, 7) =~= "Delete "@);
    assert("Delete Snippet"@.subrange(0, 7) =~= "Delete "@);
    assert("Delete "@.len() == 7 && "Delete "@[0] == 'D');
    assert("New Session"@.subrange(0, 7)[0] == 'N');
    assert("Rename Project"@.subrange(0, 7)[0] == 'R');
    assert("Open Session"@.subrange(0, 7)[0] == 'O');
    assert("Rename Session"@.subrange(0, 7)[0] == 'R');
    assert("Pin Session"@.subrange(0, 7)[0] == 'P');
    assert("Unpin Session"@.subrange(0, 7)[0] == 'U');
    assert("Close Others (keep pinned)"@.subrange(0, 7)[0] == 'C');
    assert("Insert Snippet"@.subrange(0, 7)[0] == 'I');
    assert("Edit Snippet"@.subrange(0, 7)[0] == 'E');
}

/// The menu of a project offers to make a session in it, to rename it and, last, to delete it; every
/// item is about this project.
pub proof fn law_project_menu(project_id: Seq<char>, i: int)
    requires
        0 <= i < project_menu(project_id).len(),
    ensures
        project_menu(project_id).len() == 3,
        marked_rightly(project_menu(project_id)[i]),
        project_menu(project_id)[0].action == (ActionView::CreateSessionInProject { project_id }),
        project_menu(project_id)[1].action == (ActionView::RenameProject { project_id }),
        project_menu(project_id)[2].action == (ActionView::DeleteProject { project_id }),
        project_menu(project_id)[0].label == "New Session"@,
        project_menu(project_id)[1].label == "Rename Project"@,
        project_menu(project_id)[2].label == "Delete Project"@,
{
    lemma_labels();
}

/// The menu of a session offers to open it, to rename it, to pin it where it is not pinned and to
/// unpin it where it is, to close the others and, last, to delete it; every item is about this
/// session.
pub proof fn law_session_menu_items(
    project_id: Seq<char>,
    session_id: Seq<char>,
    pinned: bool,
    i: int,
)
    requires
        0 <= i < session_menu(project_id, session_id, pinned).len(),
    ensures
        ({
            let menu = session_menu(project_id, session_id, pinned);
            &&& menu.len() == 5
            &&& marked_rightly(menu[i])
            &&& menu[0].action == (ActionView::ActivateSession { project_id, session_id })
            &&& menu[1].action == (ActionView::RenameSession { project_id, session_id })
            &&& menu[2].action == (ActionView::TogglePin {
                project_id,
                session_id,
                pinned: !pinned,
            })
            &&& menu[3].action == (ActionView::CloseOthers { project_id, session_id })
            &&& menu[4].action == (ActionView::DeleteSession { project_id, session_id })
            &&& pinned ==> menu[2].label == "Unpin Session"@
            &&& !pinned ==> menu[2].label == "Pin Session"@
        }),
{
    lemma_labels();
}

/// The menu of a snippet offers to insert it, to edit it and, last, to delete it; every item is about
/// this snippet.
pub proof fn law_snippet_menu(project_id: Seq<char>, snippet_id: Seq<char>, i: int)
    requires
        0 <= i < snippet_menu(project_id, snippet_id).len(),
    ensures
        ({
            let menu = snippet_menu(project_id, snippet_id);
            &&& menu.len() == 3
            &&& marked_rightly(menu[i])
            &&& menu[0].action == (ActionView::InsertSnippet { project_id, snippet_id })
            &&& menu[1].action == (ActionView::EditSnippet { project_id, snippet_id })
            &&& menu[2].action == (ActionView::DeleteSnippet { project_id, snippet_id })
        }),
{
    lemma_labels();
}

/// Moving stays within the menu, goes as far as it is told where there is room, and else to the end
/// in that direction.
pub proof fn law_rows_stay_in_the_menu(selected: int, delta: int, count: int)
    requires
        0 <= selected < count,
    ensures
        0 <= row_after(selected, delta, count) < count,
        0 <= selected + delta < count ==> row_after(selected, delta, count) == selected + delta,
        selected + delta < 0 ==> row_after(selected, delta, count) == 0,
        selected + delta >= count ==> row_after(selected, delta, count) == count - 1,
{
}

/// Without a modifier, Enter runs the selected item, Escape closes the menu, the arrows and `k` and
/// `j` move the selection by one row, and a digit runs the item that it counts and selects it.
pub proof fn law_menu_keys(items: Seq<MenuItemView>, selected: int, digit: char)
    requires
        0 <= selected < items.len(),
        '1' <= digit <= '9',
    ensures
        ({
            let count = items.len() as int;
            let none = MenuModifiers::NoneHeld;
            let row = digit as int - '1' as int;
            &&& key_reaction(items, selected, MenuKey::Enter, none) == ReactionView::Run(
                items[selected].action,
            )
            &&& key_reaction(items, selected, MenuKey::Escape, none) == ReactionView::Close
            &&& row_after_key(selected, count, MenuKey::Enter, none) == selected
            &&& row_after_key(selected, count, MenuKey::Escape, none) == selected
            &&& row_after_key(selected, count, MenuKey::UpArrow, none) == if selected > 0 {
                selected - 1
            } else {
                0
            }
            &&& row_after_key(selected, count, MenuKey::DownArrow, none) == if selected < count - 1 {
                selected + 1
            } else {
                selected
            }
            &&& row_after_key(selected, count, MenuKey::Char('k'), none) == row_after_key(
                selected,
                count,
                MenuKey::UpArrow,
                none,
            )
            &&& row_after_key(selected, count, MenuKey::Char('j'), none) == row_after_key(
                selected,
                count,
                MenuKey::DownArrow,
                none,
            )
            &&& row < count ==> key_reaction(items, selected, MenuKey::Char(digit), none)
                == ReactionView::Run(items[row].action) && row_after_key(
                selected,
                count,
                MenuKey::Char(digit),
                none,
            ) == row
            &&& row >= count ==> key_reaction(items, selected, MenuKey::Char(digit), none)
                == ReactionView::Nothing && row_after_key(
                selected,
                count,
                MenuKey::Char(digit),
                none,
            ) == selected
            &&& key_reaction(items, selected, MenuKey::Char('g'), MenuModifiers::Ctrl)
                == ReactionView::Close
        }),
{
}

/// A key runs an item only as Enter or as a digit, without a modifier; no key with a modifier moves
/// the selection.
pub proof fn law_keys_run_nothing_else(
    items: Seq<MenuItemView>,
    selected: int,
    key: MenuKey,
    modifiers: MenuModifiers,
)
    requires
        0 <= selected < items.len(),
    ensures
        key_reaction(items, selected, key, modifiers) is Run ==> modifiers is NoneHeld && (key
            == MenuKey::Enter || (key matches MenuKey::Char(c) && '1' <= c <= '9')),
        !(modifiers is NoneHeld) ==> row_after_key(
            selected,
            items.len() as int,
            key,
            modifiers,
        ) == selected,
        0 <= row_after_key(selected, items.len() as int, key, modifiers) < items.len(),
        key_reaction(items, selected, key, modifiers) is Redraw ==> row_after_key(
            selected,
            items.len() as int,
            key,
            modifiers,
        ) != selected,
        row_after_key(selected, items.len() as int, key, modifiers) != selected ==> key_reaction(
            items,
            selected,
            key,
            modifiers,
        ) is Redraw || key_reaction(items, selected, key, modifiers) is Run,
{
}

/// The left button runs the item that it is pressed on, and closes the menu beside it; any other
/// button closes it. Moving over an item selects it, and the wheel moves the selection by one to
/// four rows.
pub proof fn law_menu_pointer(
    items: Seq<MenuItemView>,
    selected: int,
    row: usize,
    lines: usize,
)
    requires
        0 <= selected < items.len(),
        row < items.len(),
    ensures
        ({
            let count = items.len() as int;
            &&& pointer_reaction(items, selected, MenuPointer::PressLeft, Some(row))
                == ReactionView::Run(items[row as int].action)
            &&& pointer_reaction(items, selected, MenuPointer::PressLeft, None)
                == ReactionView::Close
            &&& pointer_reaction(items, selected, MenuPointer::PressRight, Some(row))
                == ReactionView::Close
            &&& pointer_reaction(items, selected, MenuPointer::PressOther, Some(row))
                == ReactionView::Close
            &&& row_after_pointer(selected, count, MenuPointer::Move, Some(row)) == row
            &&& row_after_pointer(selected, count, MenuPointer::Move, None) == selected
            &&& pointer_reaction(items, selected, MenuPointer::Move, Some(row)) == if row == selected {
                ReactionView::Nothing
            } else {
                ReactionView::Redraw
            }
            &&& 1 <= wheel_rows(lines) <= 4
            &&& 1 <= lines <= 4 ==> wheel_rows(lines) == lines
            &&& row_after_pointer(selected, count, MenuPointer::WheelUp(lines), None) <= selected
            &&& row_after_pointer(selected, count, MenuPointer::WheelDown(lines), None) >= selected
            &&& selected > 0 ==> row_after_pointer(
                selected,
                count,
                MenuPointer::WheelUp(lines),
                None,
            ) < selected
            &&& selected < count - 1 ==> row_after_pointer(
                selected,
                count,
                MenuPointer::WheelDown(lines),
                None,
            ) > selected
        }),
{
}

/// The pointer runs an item only with the left button, and only the one that it is on.
pub proof fn law_pointer_runs_nothing_else(
    items: Seq<MenuItemView>,
    selected: int,
    pointer: MenuPointer,
    row: Option<usize>,
)
    requires
        0 <= selected < items.len(),
        row matches Some(at) ==> at < items.len(),
    ensures
        pointer_reaction(items, selected, pointer, row) matches ReactionView::Run(action) ==> {
            &&& pointer is PressLeft
            &&& row is Some
            &&& action == items[row->0 as int].action
        },
{
}

/// A menu is closed by Escape without a modifier and by `g` with Ctrl, and by no other key. A row
/// that the menu does not have is not selected.
pub proof fn law_what_closes_a_menu(
    items: Seq<MenuItemView>,
    selected: int,
    key: MenuKey,
    modifiers: MenuModifiers,
    row: usize,
)
    requires
        0 <= selected < items.len(),
    ensures
        key_reaction(items, selected, key, modifiers) is Close <==> (modifiers is NoneHeld && key
            == MenuKey::Escape) || (modifiers is Ctrl && key == MenuKey::Char('g')),
        row >= items.len() ==> row_after_pointer(
            selected,
            items.len() as int,
            MenuPointer::Move,
            Some(row),
        ) == selected,
        row >= items.len() ==> row_after_pointer(
            selected,
            items.len() as int,
            MenuPointer::PressLeft,
            Some(row),
        ) == selected,
{
}

} // verus!
