//! What holds of the sidebar on the screen: its width, and what is under the pointer.
use vstd::prelude::*;

use crate::sidebar::action::{opens_menu, ActionView};
use crate::sidebar::bindings::{
    closable, law_closing_spares_pinned, law_pinned_ids_are_pinned, one_to_one, other_projects,
    pinned_in, present, session_of, waits, without_tabs, BindingView, PendingOpenView,
};
use crate::sidebar::lines::LineView;
use crate::sidebar::model::{project_with_id, ProjectView};
use crate::sidebar::ui::{
    action_at, button_width, clamped, create_project_anchor, first_hit, first_hit_of, hit_at,
    inner_width, menu_anchor, padded_row, panel_targets, rename_project_anchor, restored, shortcut_project,
    stored_width, with_line, with_lines, with_target, HitView, ItemTypeView, ItemView, PaintedRow,
    PixelRect, SidebarUiStateFile, Targets,
};

verus! {

/// A number is kept within its bounds: as it is where it lies between them, and else at the bound
/// that it exceeds.
pub proof fn law_clamping(n: int, low: int, high: int)
    requires
        low <= high,
    ensures
        low <= clamped(n, low, high) <= high,
        low <= n <= high ==> clamped(n, low, high) == n,
        n < low ==> clamped(n, low, high) == low,
        n > high ==> clamped(n, low, high) == high,
{
}

/// The sidebar is 240 to 620 pixels wide, 320 where no width is stored, and shown where nothing is
/// stored.
pub proof fn law_widths(width_px: usize, file: SidebarUiStateFile)
    ensures
        stored_width(0) == 320,
        240 <= width_px <= 620 ==> stored_width(width_px) == width_px,
        0 < width_px < 240 ==> stored_width(width_px) == 240,
        width_px > 620 ==> stored_width(width_px) == 620,
        restored(None).width_px == 320,
        restored(None).visible,
        restored(Some(file)).visible == file.visible,
        240 <= restored(Some(file)).width_px <= 620,
        240 <= file.width_px <= 620 ==> restored(Some(file)).width_px == file.width_px,
{
}

/// A shortcut is about the active session's project, or else about the only project there is.
pub proof fn law_shortcut_project(
    active: Option<(Seq<char>, Seq<char>)>,
    projects: Seq<ProjectView>,
)
    ensures
        active matches Some(pair) ==> shortcut_project(active, projects) == Some(pair.0),
        active is None && projects.len() == 1 ==> shortcut_project(active, projects) == Some(
            projects[0].id,
        ),
        active is None && projects.len() != 1 ==> shortcut_project(active, projects) is None,
{
}

/// What is under the pointer is what the first target there does; nothing is found outside every
/// target.
pub proof fn law_pointer_finds_the_first_target(hits: Seq<HitView>, x: int, y: int, k: int)
    ensures
        0 <= k < hits.len() && hit_at(hits[k], x, y) && (forall|i: int|
            0 <= i < k ==> !hit_at(#[trigger] hits[i], x, y)) ==> action_at(hits, x, y) == Some(
            hits[k].action,
        ),
        (forall|i: int| 0 <= i < hits.len() ==> !hit_at(#[trigger] hits[i], x, y)) ==> action_at(
            hits,
            x,
            y,
        ) is None,
    decreases hits.len(),
{
    if hits.len() > 0 {
        let rest = hits.skip(1);
        law_pointer_finds_the_first_target(rest, x, y, k - 1);
        if 0 <= k < hits.len() && hit_at(hits[k], x, y) && (forall|i: int|
            0 <= i < k ==> !hit_at(#[trigger] hits[i], x, y)) {
            if k > 0 {
                assert(!hit_at(hits[0], x, y));
                assert(rest[k - 1] == hits[k]);
                assert forall|i: int| 0 <= i < k - 1 implies !hit_at(#[trigger] rest[i], x, y) by {
                    assert(rest[i] == hits[i + 1]);
                }
            }
        }
        if forall|i: int| 0 <= i < hits.len() ==> !hit_at(#[trigger] hits[i], x, y) {
            assert(!hit_at(hits[0], x, y));
            assert forall|i: int| 0 <= i < rest.len() implies !hit_at(#[trigger] rest[i], x, y) by {
                assert(rest[i] == hits[i + 1]);
            }
        }
    }
}

/// A point inside a rectangle, or on its edge, is in it.
pub proof fn law_points_in_a_target(hit: HitView, right: nat, down: nat)
    ensures
        right <= hit.width && down <= hit.height ==> hit_at(hit, hit.x + right, hit.y + down),
        right > hit.width ==> !hit_at(hit, hit.x + right, hit.y + down),
        down > hit.height ==> !hit_at(hit, hit.x + right, hit.y + down),
        !hit_at(hit, hit.x - 1, hit.y as int),
        !hit_at(hit, hit.x as int, hit.y - 1),
{
}

/// A line that is not under the pointer has one target, over its whole width, for its action, and
/// none where it has no action; its buttons are no targets.
pub proof fn law_lines_are_targets(
    targets: Targets,
    line: LineView,
    row: PaintedRow,
    x: usize,
    width: usize,
)
    requires
        !row.hovered,
    ensures
        ({
            let after = with_line(targets, line, row, x, width);
            &&& line.action is None ==> after == targets
            &&& line.action matches Some(action) ==> {
                &&& after.items == targets.items.push(
                    ItemView {
                        x,
                        y: row.y,
                        width,
                        height: row.height,
                        item_type: ItemTypeView::SidebarAction(action),
                    },
                )
                &&& !opens_menu(action) ==> after.hits == targets.hits.push(
                    HitView { x, y: row.y, width, height: row.height, action },
                )
                &&& opens_menu(action) ==> after.hits == targets.hits
            }
        }),
{
}

/// The action is the line's own, or that of one of its buttons.
pub open spec fn offered_by(line: LineView, action: ActionView) -> bool {
    ||| line.action == Some(action)
    ||| exists|k: int|
        0 <= k < line.trailing_buttons.len() && (#[trigger] line.trailing_buttons[k]).action
            == action
}

proof fn lemma_buttons_add_only_buttons(
    targets: Targets,
    line: LineView,
    count: int,
    row: PaintedRow,
    right: int,
    left: int,
    width: int,
    action: ActionView,
)
    requires
        0 <= count <= line.trailing_buttons.len(),
        forall|i: int|
            0 <= i < targets.hits.len() ==> (#[trigger] targets.hits[i]).action != action,
        !offered_by(line, action),
    ensures
        ({
            let after = crate::sidebar::ui::with_buttons(
                targets,
                line.trailing_buttons.take(count),
                row,
                right,
                left,
                width,
            );
            forall|i: int|
                0 <= i < after.hits.len() ==> (#[trigger] after.hits[i]).action != action
        }),
    decreases count,
{
    let buttons = line.trailing_buttons.take(count);
    let x = if right - width >= left {
        right - width
    } else {
        left
    };
    if buttons.len() > 0 && x < right {
        let rect = PixelRect {
            x: x as usize,
            y: row.y,
            width: width as usize,
            height: if row.height == 0 {
                1
            } else {
                row.height
            },
        };
        assert(buttons.last() == line.trailing_buttons[count - 1]);
        let next = with_target(targets, rect, buttons.last().action);
        assert forall|i: int| 0 <= i < next.hits.len() implies (#[trigger] next.hits[i]).action
            != action by {
            if i < targets.hits.len() {
                assert(next.hits[i] == targets.hits[i]);
            }
        }
        if x - 4 > left {
            assert(buttons.drop_last() =~= line.trailing_buttons.take(count - 1));
            lemma_buttons_add_only_buttons(
                next,
                line,
                count - 1,
                row,
                x - 4,
                left,
                width,
                action,
            );
        }
    }
}

/// Nothing can be done with the pointer in the sidebar that no line and no button of it offers.
pub proof fn law_targets_do_what_lines_offer(
    panel: PixelRect,
    lines: Seq<LineView>,
    rows: Seq<PaintedRow>,
    action: ActionView,
)
    requires
        rows.len() <= lines.len(),
        forall|i: int| 0 <= i < lines.len() ==> !offered_by(#[trigger] lines[i], action),
    ensures
        ({
            let after = with_lines(panel_targets(panel), lines, rows, panel.x, panel.width);
            forall|i: int|
                0 <= i < after.hits.len() ==> (#[trigger] after.hits[i]).action != action
        }),
    decreases rows.len(),
{
    if rows.len() > 0 {
        let head = rows.drop_last();
        law_targets_do_what_lines_offer(panel, lines, head, action);
        let before = with_lines(panel_targets(panel), lines, head, panel.x, panel.width);
        let line = lines[rows.len() - 1];
        let row = rows.last();
        assert(!offered_by(line, action));
        let with_action = match line.action {
            Some(own) => with_target(
                before,
                PixelRect { x: panel.x, y: row.y, width: panel.width, height: row.height },
                own,
            ),
            None => before,
        };
        assert forall|i: int| 0 <= i < with_action.hits.len() implies (
        #[trigger] with_action.hits[i]).action != action by {
            if i < before.hits.len() {
                assert(with_action.hits[i] == before.hits[i]);
            }
        }
        if row.hovered {
            assert(line.trailing_buttons.take(line.trailing_buttons.len() as int)
                =~= line.trailing_buttons);
            lemma_buttons_add_only_buttons(
                with_action,
                line,
                line.trailing_buttons.len() as int,
                row,
                panel.x + panel.width - crate::sidebar::ui::MORE_BUTTON_RIGHT_PADDING_PX,
                panel.x + crate::sidebar::ui::TEXT_LEFT_PADDING_PX,
                button_width(panel.width as int),
                action,
            );
        }
    }
}

/// The panel itself and its resize handle, at its right edge, come before every line.
pub proof fn law_panel_targets(panel: PixelRect)
    requires
        panel.width >= 8,
        panel.x + panel.width <= usize::MAX,
    ensures
        panel_targets(panel).hits.len() == 0,
        panel_targets(panel).items.len() == 2,
        panel_targets(panel).items[0].item_type == ItemTypeView::SidebarPanel,
        panel_targets(panel).items[0].x == panel.x,
        panel_targets(panel).items[0].width == panel.width,
        panel_targets(panel).items[1].item_type == ItemTypeView::SidebarResizeHandle,
        panel_targets(panel).items[1].x + panel_targets(panel).items[1].width == panel.x
            + panel.width,
        panel_targets(panel).items[1].height == panel.height,
{
}

/// A form opens where what it is about is shown, at least so wide, and a menu at the pointer.
pub proof fn law_anchors(
    hits: Seq<HitView>,
    hit: HitView,
    project_id: Seq<char>,
    reserved: int,
    mouse_x: isize,
    mouse_y: isize,
    reserved_width_px: usize,
    cell_height: isize,
)
    ensures
        first_hit(hits, ActionView::CreateProject) == Some(hit) ==> {
            let anchor = create_project_anchor(reserved, cell_height, hits);
            &&& anchor.x == hit.x
            &&& anchor.y == hit.y
            &&& 240 <= anchor.width <= 560
            &&& anchor.height > 0
        },
        first_hit(hits, ActionView::ProjectRow { project_id }) == Some(hit) ==> {
            let anchor = rename_project_anchor(project_id, reserved, cell_height, hits);
            &&& anchor.x == hit.x
            &&& anchor.y == hit.y
            &&& 220 <= anchor.width <= 560
            &&& anchor.height > 0
        },
        ({
            let anchor = menu_anchor(mouse_x, mouse_y, reserved_width_px, cell_height);
            &&& mouse_x >= 0 ==> anchor.x == mouse_x
            &&& mouse_y >= 0 ==> anchor.y == mouse_y
            &&& mouse_x < 0 ==> anchor.x == 0
            &&& mouse_y < 0 ==> anchor.y == 0
            &&& 220 <= anchor.width <= 360
            &&& anchor.item_type == ItemTypeView::SidebarPanel
        }),
        padded_row(cell_height, 12) >= 1,
        1 <= cell_height < 100000 ==> padded_row(cell_height, 12) == cell_height + 12,
        inner_width(reserved, 24) >= 0,
{
}

/// Closing the other sessions' tabs of a project closes neither the kept one, nor a pinned one, nor
/// one of another project, and closes every other.
pub proof fn law_closing_others(
    bindings: Seq<BindingView>,
    projects: Seq<ProjectView>,
    project_id: Seq<char>,
    keep: Option<Seq<char>>,
    tab_id: u64,
    pair: (Seq<char>, Seq<char>),
)
    requires
        one_to_one(bindings),
        session_of(bindings, tab_id) == Some(pair),
    ensures
        ({
            let closed = closable(bindings, project_id, keep, pinned_in(projects, project_id));
            let pinned = project_with_id(projects, project_id) matches Some(project) && exists|i: int|
                0 <= i < project.sessions.len() && (#[trigger] project.sessions[i]).id == pair.1
                    && project.sessions[i].pinned;
            &&& pair.0 != project_id ==> !closed.contains(tab_id)
            &&& keep == Some(pair.1) ==> !closed.contains(tab_id)
            &&& pinned ==> !closed.contains(tab_id)
            &&& pair.0 == project_id && keep != Some(pair.1) && !pinned ==> closed.contains(tab_id)
        }),
{
    law_closing_spares_pinned(
        bindings,
        project_id,
        keep,
        pinned_in(projects, project_id),
        tab_id,
    );
    if project_with_id(projects, project_id) is Some {
        law_pinned_ids_are_pinned(project_with_id(projects, project_id)->0.sessions, pair.1);
    }
}

/// Of tabs that are to be closed those are closed that exist, each as often as it was named.
pub proof fn law_existing_tabs_are_closed(ids: Seq<u64>, existing: Seq<u64>, id: u64)
    ensures
        present(ids, existing).contains(id) <==> ids.contains(id) && existing.contains(id),
    decreases ids.len(),
{
    let kept = present(ids, existing);
    if ids.len() > 0 {
        let head = ids.drop_last();
        let before = present(head, existing);
        law_existing_tabs_are_closed(head, existing, id);
        if kept.contains(id) && !before.contains(id) {
            let at = choose|at: int| 0 <= at < kept.len() && kept[at] == id;
            if at < before.len() {
                assert(before[at] == id);
            }
            assert(ids[ids.len() - 1] == id);
        }
        if before.contains(id) {
            let at = choose|at: int| 0 <= at < before.len() && before[at] == id;
            assert(kept[at] == id);
            let from = choose|from: int| 0 <= from < head.len() && head[from] == id;
            assert(ids[from] == id);
        }
        if ids.contains(id) && existing.contains(id) {
            let at = choose|at: int| 0 <= at < ids.len() && ids[at] == id;
            if at < head.len() {
                assert(head[at] == id);
            } else {
                assert(kept[before.len() as int] == id);
            }
        }
    }
}

/// Tabs that are closed show no session any more, and every other tab shows what it did.
pub proof fn law_closed_tabs_show_nothing(
    bindings: Seq<BindingView>,
    tab_ids: Seq<u64>,
    tab_id: u64,
)
    ensures
        session_of(without_tabs(bindings, tab_ids), tab_id) == if tab_ids.contains(tab_id) {
            None
        } else {
            session_of(bindings, tab_id)
        },
    decreases tab_ids.len(),
{
    if tab_ids.len() > 0 {
        let head = tab_ids.drop_last();
        let last = tab_ids.last();
        law_closed_tabs_show_nothing(bindings, head, tab_id);
        crate::sidebar::bindings::law_unbound_tab_shows_nothing(
            without_tabs(bindings, head),
            last,
            tab_id,
        );
        assert(tab_ids[tab_ids.len() - 1] == last);
        if tab_ids.contains(tab_id) {
            let at = choose|at: int| 0 <= at < tab_ids.len() && tab_ids[at] == tab_id;
            if at < head.len() {
                assert(head[at] == tab_id);
            }
        }
        if head.contains(tab_id) {
            let at = choose|at: int| 0 <= at < head.len() && head[at] == tab_id;
            assert(tab_ids[at] == tab_id);
        }
    }
}

/// A project that is forgotten has nothing left to open, and every other project's openings wait on.
pub proof fn law_forgotten_projects_open_nothing(
    pending: Seq<PendingOpenView>,
    project_id: Seq<char>,
    open: PendingOpenView,
)
    ensures
        other_projects(pending, project_id).contains(open) <==> pending.contains(open)
            && open.project_id != project_id,
    decreases pending.len(),
{
    let kept = other_projects(pending, project_id);
    if pending.len() > 0 {
        let head = pending.drop_last();
        let before = other_projects(head, project_id);
        law_forgotten_projects_open_nothing(head, project_id, open);
        if kept.contains(open) && !before.contains(open) {
            let at = choose|at: int| 0 <= at < kept.len() && kept[at] == open;
            if at < before.len() {
                assert(before[at] == open);
            }
            assert(pending[pending.len() - 1] == open);
        }
        if before.contains(open) {
            let at = choose|at: int| 0 <= at < before.len() && before[at] == open;
            assert(kept[at] == open);
            let from = choose|from: int| 0 <= from < head.len() && head[from] == open;
            assert(pending[from] == open);
        }
        if pending.contains(open) {
            let at = choose|at: int| 0 <= at < pending.len() && pending[at] == open;
            if at < head.len() {
                assert(head[at] == open);
            } else if open.project_id != project_id {
                assert(kept[before.len() as int] == open);
            }
        }
    }
}

/// What is shown for an action is found at the first target for it, and nothing is found for an
/// action without a target; of two actions the first target for either is found.
pub proof fn law_targets_are_found(
    hits: Seq<HitView>,
    action: ActionView,
    other: ActionView,
    k: int,
)
    ensures
        0 <= k < hits.len() && hits[k].action == action && (forall|i: int|
            0 <= i < k ==> (#[trigger] hits[i]).action != action) ==> first_hit(hits, action)
            == Some(hits[k]),
        (forall|i: int| 0 <= i < hits.len() ==> (#[trigger] hits[i]).action != action)
            ==> first_hit(hits, action) is None,
        0 <= k < hits.len() && (hits[k].action == action || hits[k].action == other) && (forall|
            i: int,
        |
            0 <= i < k ==> (#[trigger] hits[i]).action != action && hits[i].action != other)
            ==> first_hit_of(hits, action, other) == Some(hits[k]),
        (forall|i: int|
            0 <= i < hits.len() ==> (#[trigger] hits[i]).action != action && hits[i].action
                != other) ==> first_hit_of(hits, action, other) is None,
    decreases hits.len(),
{
    if hits.len() > 0 {
        let rest = hits.skip(1);
        law_targets_are_found(rest, action, other, k - 1);
        assert forall|i: int| 0 <= i < rest.len() implies #[trigger] rest[i] == hits[i + 1] by {}
        if 0 < k < hits.len() {
            assert(rest[k - 1] == hits[k]);
            if forall|i: int| 0 <= i < k ==> (#[trigger] hits[i]).action != action {
                assert(hits[0].action != action);
                assert forall|i: int| 0 <= i < k - 1 implies (#[trigger] rest[i]).action
                    != action by {
                    assert(rest[i] == hits[i + 1]);
                }
            }
            if forall|i: int|
                0 <= i < k ==> (#[trigger] hits[i]).action != action && hits[i].action != other {
                assert(hits[0].action != action && hits[0].action != other);
                assert forall|i: int| 0 <= i < k - 1 implies (#[trigger] rest[i]).action != action
                    && rest[i].action != other by {
                    assert(rest[i] == hits[i + 1]);
                }
            }
        }
        if forall|i: int| 0 <= i < hits.len() ==> (#[trigger] hits[i]).action != action {
            assert(hits[0].action != action);
            assert forall|i: int| 0 <= i < rest.len() implies (#[trigger] rest[i]).action
                != action by {
                assert(rest[i] == hits[i + 1]);
            }
        }
        if forall|i: int|
            0 <= i < hits.len() ==> (#[trigger] hits[i]).action != action && hits[i].action
                != other {
            assert(hits[0].action != action && hits[0].action != other);
            assert forall|i: int| 0 <= i < rest.len() implies (#[trigger] rest[i]).action != action
                && rest[i].action != other by {
                assert(rest[i] == hits[i + 1]);
            }
        }
    }
}

/// The last button of a line under the pointer is a target at the right end of the line, a margin of
/// eight pixels away from the edge, and does what the button does.
pub proof fn law_buttons_are_targets(
    targets: Targets,
    line: LineView,
    row: PaintedRow,
    x: usize,
    width: usize,
)
    requires
        row.hovered,
        line.trailing_buttons.len() == 1,
        100 <= width,
        x + width <= usize::MAX,
    ensures
        ({
            let after = with_line(targets, line, row, x, width);
            let button = after.items.last();
            &&& button.item_type == ItemTypeView::SidebarAction(line.trailing_buttons[0].action)
            &&& button.x + button.width == x + width - 8
            &&& button.width == 28
            &&& button.y == row.y
            &&& after.items.len() == targets.items.len() + if line.action is Some {
                2int
            } else {
                1int
            }
        }),
{
    reveal_with_fuel(crate::sidebar::ui::with_buttons, 2);
    assert(line.trailing_buttons.drop_last().len() == 0);
}

/// A session waits to be opened where an opening of exactly this session of this project waits, and
/// nowhere else.
pub proof fn law_waiting_openings(
    pending: Seq<PendingOpenView>,
    project_id: Seq<char>,
    session_id: Seq<char>,
    k: int,
)
    ensures
        0 <= k < pending.len() && pending[k].project_id == project_id && pending[k].session_id
            == session_id ==> waits(pending, project_id, session_id),
        (forall|i: int|
            0 <= i < pending.len() ==> (#[trigger] pending[i]).project_id != project_id
                || pending[i].session_id != session_id) ==> !waits(pending, project_id, session_id),
{
}

} // verus!
