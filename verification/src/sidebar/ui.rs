//! Where the sidebar is and what lies under the pointer.
use vstd::prelude::*;

use crate::sidebar::action::{
    opens_menu, sidebar_action_needs_pointer_position, ActionView, SidebarAction,
};
use crate::sidebar::lines::{ButtonView, LineView, SidebarLine, SidebarTrailingButton};
use crate::sidebar::model::{ProjectView, WorkspaceSidebarProject};

verus! {

pub const DEFAULT_WIDTH_PX: usize = 320;

pub const MIN_WIDTH_PX: usize = 240;

pub const MAX_WIDTH_PX: usize = 620;

pub const RESIZE_HANDLE_WIDTH_PX: usize = 8;

pub const MORE_BUTTON_WIDTH_PX: usize = 28;

pub const MORE_BUTTON_RIGHT_PADDING_PX: usize = 8;

pub const TEXT_LEFT_PADDING_PX: usize = 12;

/// How long loaded projects are shown before they are read again, in milliseconds.
pub const REFRESH_INTERVAL_MS: u128 = 1200;

/// A number brought into a range.
pub open spec fn clamped(n: int, low: int, high: int) -> int {
    if n < low {
        low
    } else if n > high {
        high
    } else {
        n
    }
}

/// A number brought into a range.
pub fn clamp(n: usize, low: usize, high: usize) -> (r: usize)
    ensures
        r == clamped(n as int, low as int, high as int),
{
    if n < low {
        low
    } else if n > high {
        high
    } else {
        n
    }
}

// ---------------------------------------------------------------------------
// Width and visibility
// ---------------------------------------------------------------------------

/// The stored state of the sidebar.
#[derive(Debug, PartialEq, Eq)]
pub struct SidebarUiStateFile {
    pub version: u8,
    pub width_px: usize,
    pub visible: bool,
    pub updated_at: String,
}

impl Default for SidebarUiStateFile {
    fn default() -> (r: SidebarUiStateFile)
        ensures
            r.version == 1,
            r.width_px == DEFAULT_WIDTH_PX,
            r.visible,
            r.updated_at@ == Seq::<char>::empty(),
    {
        SidebarUiStateFile {
            version: 1,
            width_px: DEFAULT_WIDTH_PX,
            visible: true,
            updated_at: String::new(),
        }
    }
}

/// How wide the sidebar is and whether it is shown. A width of zero stands for the default.
#[derive(Debug, Clone, Copy, PartialEq, Eq, Structural)]
pub struct SidebarUiState {
    pub width_px: usize,
    pub visible: bool,
}

/// The width that a remembered width stands for: the default for zero, and always in range.
pub open spec fn stored_width(width_px: usize) -> int {
    clamped(
        if width_px == 0 {
            DEFAULT_WIDTH_PX as int
        } else {
            width_px as int
        },
        MIN_WIDTH_PX as int,
        MAX_WIDTH_PX as int,
    )
}

/// The state that was stored; the default state where none could be read.
pub open spec fn restored(file: Option<SidebarUiStateFile>) -> SidebarUiState {
    match file {
        Some(state) => SidebarUiState {
            width_px: clamped(
                state.width_px as int,
                MIN_WIDTH_PX as int,
                MAX_WIDTH_PX as int,
            ) as usize,
            visible: state.visible,
        },
        None => SidebarUiState { width_px: DEFAULT_WIDTH_PX, visible: true },
    }
}

/// The file is what is stored of a state at this time.
pub open spec fn stores(
    file: SidebarUiStateFile,
    state: SidebarUiState,
    now: Seq<char>,
) -> bool {
    &&& file.version == 1
    &&& file.width_px == stored_width(state.width_px)
    &&& file.visible == state.visible
    &&& file.updated_at@ == now
}

impl SidebarUiState {
    /// The state that was stored; the default state where none could be read.
    pub fn persisted(file: &Option<SidebarUiStateFile>) -> (r: SidebarUiState)
        ensures
            r == restored(*file),
    {
        match file {
            Some(state) => SidebarUiState {
                width_px: clamp(state.width_px, MIN_WIDTH_PX, MAX_WIDTH_PX),
                visible: state.visible,
            },
            None => SidebarUiState { width_px: DEFAULT_WIDTH_PX, visible: true },
        }
    }

    /// The state as it is stored.
    pub fn to_file(&self, now: &str) -> (r: SidebarUiStateFile)
        ensures
            stores(r, *self, now@),
    {
        SidebarUiStateFile {
            version: 1,
            width_px: self.sidebar_stored_width_px(),
            visible: self.visible,
            updated_at: now.to_owned(),
        }
    }

    /// The width of the sidebar, shown or not.
    pub fn sidebar_stored_width_px(&self) -> (r: usize)
        ensures
            r == stored_width(self.width_px),
    {
        let width: usize = if self.width_px == 0 {
            DEFAULT_WIDTH_PX
        } else {
            self.width_px
        };
        clamp(width, MIN_WIDTH_PX, MAX_WIDTH_PX)
    }

    /// The width that the sidebar takes from the window.
    pub fn sidebar_reserved_width_px(&self) -> (r: usize)
        ensures
            r == if self.visible {
                stored_width(self.width_px)
            } else {
                0
            },
    {
        if !self.visible {
            return 0;
        }
        self.sidebar_stored_width_px()
    }

    /// Sets the width, brought into range; true where it changed.
    pub fn sidebar_set_width_px(&mut self, width: usize) -> (r: bool)
        ensures
            final(self).visible == old(self).visible,
            final(self).width_px == clamped(
                width as int,
                MIN_WIDTH_PX as int,
                MAX_WIDTH_PX as int,
            ),
            r == (final(self).width_px != old(self).width_px),
    {
        let width: usize = clamp(width, MIN_WIDTH_PX, MAX_WIDTH_PX);
        if width == self.width_px {
            return false;
        }
        self.width_px = width;
        true
    }

    /// Sets the width by how far the edge was dragged; true where it changed.
    pub fn sidebar_resize_from_drag(&mut self, start_x: isize, current_x: isize) -> (r: bool)
        ensures
            final(self).visible == old(self).visible,
            final(self).width_px == clamped(
                stored_width(old(self).width_px) + (current_x - start_x),
                MIN_WIDTH_PX as int,
                MAX_WIDTH_PX as int,
            ),
            r == (final(self).width_px != old(self).width_px),
    {
        let moved: i128 = self.sidebar_stored_width_px() as i128 + (current_x as i128
            - start_x as i128);
        let width: usize = if moved < MIN_WIDTH_PX as i128 {
            MIN_WIDTH_PX
        } else if moved > MAX_WIDTH_PX as i128 {
            MAX_WIDTH_PX
        } else {
            moved as usize
        };
        self.sidebar_set_width_px(width)
    }

    /// Shows or hides the sidebar; true where that changed it.
    pub fn sidebar_set_visible(&mut self, visible: bool) -> (r: bool)
        ensures
            final(self).width_px == old(self).width_px,
            final(self).visible == visible,
            r == (old(self).visible != visible),
    {
        if self.visible == visible {
            return false;
        }
        self.visible = visible;
        true
    }

    /// Shows the sidebar where it is hidden, and hides it where it is shown.
    pub fn sidebar_toggle_visible(&mut self) -> (r: bool)
        ensures
            final(self).width_px == old(self).width_px,
            final(self).visible == !old(self).visible,
            r == final(self).visible,
    {
        let visible = !self.visible;
        self.sidebar_set_visible(visible);
        self.visible
    }
}

/// A stored width is in range, and storing it again keeps it.
pub proof fn law_stored_width_in_range(width_px: usize)
    ensures
        MIN_WIDTH_PX <= stored_width(width_px) <= MAX_WIDTH_PX,
        stored_width(stored_width(width_px) as usize) == stored_width(width_px),
{
}

/// The sidebar's width and visibility come back after a restart: what was stored of a state is
/// restored with the same visibility, and with the width that the sidebar had.
pub proof fn law_stored_state_comes_back(
    file: SidebarUiStateFile,
    state: SidebarUiState,
    now: Seq<char>,
)
    requires
        stores(file, state, now),
    ensures
        restored(Some(file)).visible == state.visible,
        restored(Some(file)).width_px == stored_width(state.width_px),
        stored_width(restored(Some(file)).width_px) == stored_width(state.width_px),
{
}

/// Dragging the edge forth and back brings the width back, where the range was not left.
pub proof fn law_drag_and_back(width_px: usize, by: int)
    requires
        MIN_WIDTH_PX <= stored_width(width_px) + by <= MAX_WIDTH_PX,
    ensures
        clamped(
            stored_width((stored_width(width_px) + by) as usize) - by,
            MIN_WIDTH_PX as int,
            MAX_WIDTH_PX as int,
        ) == stored_width(width_px),
{
}

/// How many characters fit on a line of the sidebar: what the width has room for beside the
/// padding, but at least sixteen.
pub fn sidebar_line_char_budget(reserved_width_px: usize, cell_width: usize) -> (r: usize)
    ensures
        ({
            let usable = if reserved_width_px >= 24 {
                reserved_width_px - 24
            } else {
                0
            };
            let cell = if cell_width == 0 {
                1
            } else {
                cell_width as int
            };
            r == if usable / cell >= 16 {
                usable / cell
            } else {
                16
            }
        }),
{
    let usable: usize = reserved_width_px.saturating_sub(24);
    let cell: usize = if cell_width == 0 {
        1
    } else {
        cell_width
    };
    let fitting: usize = usable / cell;
    if fitting >= 16 {
        fitting
    } else {
        16
    }
}

/// Whether projects have to be read again, by how long ago they were read.
pub fn should_refresh(loaded_ms_ago: Option<u128>) -> (r: bool)
    ensures
        r == match loaded_ms_ago {
            Some(elapsed) => elapsed >= REFRESH_INTERVAL_MS,
            None => true,
        },
{
    match loaded_ms_ago {
        Some(elapsed) => elapsed >= REFRESH_INTERVAL_MS,
        None => true,
    }
}

/// What the sidebar shows, and why the last reading of it failed.
pub struct WorkspaceSidebar {
    pub projects: Vec<WorkspaceSidebarProject>,
    pub last_load_error: Option<String>,
}

impl WorkspaceSidebar {
    /// Nothing was read yet.
    pub fn new() -> (r: WorkspaceSidebar)
        ensures
            r.projects.deep_view() == Seq::<ProjectView>::empty(),
            r.last_load_error is None,
    {
        let projects: Vec<WorkspaceSidebarProject> = Vec::new();
        assert(projects.deep_view() =~= Seq::<ProjectView>::empty());
        WorkspaceSidebar { projects, last_load_error: None }
    }

    /// The projects were read again, or that failed; then what was read before stays.
    pub fn refreshed(&mut self, loaded: Result<Vec<WorkspaceSidebarProject>, String>)
        ensures
            match loaded {
                Ok(projects) => final(self).projects == projects && final(self).last_load_error is None,
                Err(message) => final(self).projects == old(self).projects && final(self).last_load_error == Some(message),
            },
    {
        match loaded {
            Ok(projects) => {
                self.projects = projects;
                self.last_load_error = None;
            },
            Err(message) => {
                self.last_load_error = Some(message);
            },
        }
    }
}

/// The project that shortcuts and resources are about: the one of the active session, or else the
/// only one there is.
pub open spec fn shortcut_project(
    active: Option<(Seq<char>, Seq<char>)>,
    projects: Seq<ProjectView>,
) -> Option<Seq<char>> {
    match active {
        Some(pair) => Some(pair.0),
        None => if projects.len() == 1 {
            Some(projects[0].id)
        } else {
            None
        },
    }
}

/// The project that shortcuts and resources are about.
pub fn sidebar_active_project_for_shortcuts(
    active: &Option<(String, String)>,
    projects: &Vec<WorkspaceSidebarProject>,
) -> (r: Option<String>)
    ensures
        r.deep_view() == shortcut_project(
            crate::sidebar::lines::active_view(*active),
            projects.deep_view(),
        ),
{
    match active {
        Some(pair) => Some(pair.0.clone()),
        None => {
            assert(projects.deep_view().len() == projects@.len());
            if projects.len() == 1 {
                assert(projects.deep_view()[0] == projects@[0].deep_view());
                Some(projects[0].id.clone())
            } else {
                None
            }
        },
    }
}

// ---------------------------------------------------------------------------
// Items on the screen
// ---------------------------------------------------------------------------

/// What lies in a rectangle of the window.
#[derive(Debug, PartialEq, Eq)]
pub enum UIItemType {
    SidebarPanel,
    SidebarResizeHandle,
    SidebarAction(SidebarAction),
}

/// A rectangle of the window and what lies in it.
#[derive(Debug, PartialEq, Eq)]
pub struct UIItem {
    pub x: usize,
    pub y: usize,
    pub width: usize,
    pub height: usize,
    pub item_type: UIItemType,
}

/// A [`UIItemType`] over sequences.
pub enum ItemTypeView {
    SidebarPanel,
    SidebarResizeHandle,
    SidebarAction(ActionView),
}

/// A [`UIItem`] over sequences.
pub struct ItemView {
    pub x: usize,
    pub y: usize,
    pub width: usize,
    pub height: usize,
    pub item_type: ItemTypeView,
}

impl DeepView for UIItem {
    type V = ItemView;

    open spec fn deep_view(&self) -> ItemView {
        ItemView {
            x: self.x,
            y: self.y,
            width: self.width,
            height: self.height,
            item_type: match self.item_type {
                UIItemType::SidebarPanel => ItemTypeView::SidebarPanel,
                UIItemType::SidebarResizeHandle => ItemTypeView::SidebarResizeHandle,
                UIItemType::SidebarAction(action) => ItemTypeView::SidebarAction(
                    action.deep_view(),
                ),
            },
        }
    }
}

/// A rectangle in which an action is done.
#[derive(Debug, PartialEq, Eq)]
pub struct WorkspaceSidebarActionHit {
    pub x: usize,
    pub y: usize,
    pub width: usize,
    pub height: usize,
    pub action: SidebarAction,
}

/// A [`WorkspaceSidebarActionHit`] over sequences.
pub struct HitView {
    pub x: usize,
    pub y: usize,
    pub width: usize,
    pub height: usize,
    pub action: ActionView,
}

impl DeepView for WorkspaceSidebarActionHit {
    type V = HitView;

    open spec fn deep_view(&self) -> HitView {
        HitView {
            x: self.x,
            y: self.y,
            width: self.width,
            height: self.height,
            action: self.action.deep_view(),
        }
    }
}

/// The point lies in the rectangle, its edges included.
pub open spec fn hit_at(hit: HitView, x: int, y: int) -> bool {
    hit.x <= x <= hit.x + hit.width && hit.y <= y <= hit.y + hit.height
}

/// The action of the first rectangle that the point lies in.
pub open spec fn action_at(hits: Seq<HitView>, x: int, y: int) -> Option<ActionView>
    decreases hits.len(),
{
    if hits.len() == 0 {
        None
    } else if hit_at(hits[0], x, y) {
        Some(hits[0].action)
    } else {
        action_at(hits.skip(1), x, y)
    }
}

/// The action of the first rectangle that the point lies in. The rectangles lie within the range of
/// coordinates.
pub fn workspace_sidebar_action_at(
    hits: &Vec<WorkspaceSidebarActionHit>,
    x: isize,
    y: isize,
) -> (r: Option<SidebarAction>)
    requires
        forall|i: int|
            0 <= i < hits@.len() ==> (#[trigger] hits@[i]).x + hits@[i].width <= isize::MAX
                && hits@[i].y + hits@[i].height <= isize::MAX,
    ensures
        r.deep_view() == action_at(hits.deep_view(), x as int, y as int),
{
    let ghost all = hits.deep_view();
    let mut i: usize = 0;
    assert(all.skip(0) =~= all);
    while i < hits.len()
        invariant
            i <= hits@.len(),
            all == hits.deep_view(),
            forall|i: int|
                0 <= i < hits@.len() ==> (#[trigger] hits@[i]).x + hits@[i].width <= isize::MAX
                    && hits@[i].y + hits@[i].height <= isize::MAX,
            action_at(all, x as int, y as int) == action_at(
                all.skip(i as int),
                x as int,
                y as int,
            ),
        decreases hits@.len() - i,
    {
        let hit = &hits[i];
        assert(all.skip(i as int)[0] == hit.deep_view());
        assert(all.skip(i as int).skip(1) =~= all.skip(i + 1));
        if x >= hit.x as isize && x <= (hit.x + hit.width) as isize && y >= hit.y as isize && y <= (
        hit.y + hit.height) as isize {
            return Some(hit.action.clone());
        }
        i = i + 1;
    }
    None
}

/// The first rectangle with this action.
pub open spec fn first_hit(hits: Seq<HitView>, action: ActionView) -> Option<HitView>
    decreases hits.len(),
{
    if hits.len() == 0 {
        None
    } else if hits[0].action == action {
        Some(hits[0])
    } else {
        first_hit(hits.skip(1), action)
    }
}

/// The first rectangle with one of two actions.
pub open spec fn first_hit_of(hits: Seq<HitView>, one: ActionView, two: ActionView) -> Option<
    HitView,
>
    decreases hits.len(),
{
    if hits.len() == 0 {
        None
    } else if hits[0].action == one || hits[0].action == two {
        Some(hits[0])
    } else {
        first_hit_of(hits.skip(1), one, two)
    }
}

/// What is seen of a rectangle through an optional reference.
pub open spec fn seen_hit(hit: Option<&WorkspaceSidebarActionHit>) -> Option<HitView> {
    match hit {
        Some(value) => Some(value.deep_view()),
        None => None,
    }
}

fn find_hit<'a>(hits: &'a Vec<WorkspaceSidebarActionHit>, action: &SidebarAction) -> (r: Option<
    &'a WorkspaceSidebarActionHit,
>)
    ensures
        seen_hit(r) == first_hit(hits.deep_view(), action.deep_view()),
{
    let ghost all = hits.deep_view();
    let mut i: usize = 0;
    assert(all.skip(0) =~= all);
    while i < hits.len()
        invariant
            i <= hits@.len(),
            all == hits.deep_view(),
            first_hit(all, action.deep_view()) == first_hit(
                all.skip(i as int),
                action.deep_view(),
            ),
        decreases hits@.len() - i,
    {
        assert(all.skip(i as int)[0] == hits@[i as int].deep_view());
        assert(all.skip(i as int).skip(1) =~= all.skip(i + 1));
        if hits[i].action.same_as(action) {
            return Some(&hits[i]);
        }
        i = i + 1;
    }
    None
}

fn find_hit_of<'a>(
    hits: &'a Vec<WorkspaceSidebarActionHit>,
    one: &SidebarAction,
    two: &SidebarAction,
) -> (r: Option<&'a WorkspaceSidebarActionHit>)
    ensures
        seen_hit(r) == first_hit_of(hits.deep_view(), one.deep_view(), two.deep_view()),
{
    let ghost all = hits.deep_view();
    let mut i: usize = 0;
    assert(all.skip(0) =~= all);
    while i < hits.len()
        invariant
            i <= hits@.len(),
            all == hits.deep_view(),
            first_hit_of(all, one.deep_view(), two.deep_view()) == first_hit_of(
                all.skip(i as int),
                one.deep_view(),
                two.deep_view(),
            ),
        decreases hits@.len() - i,
    {
        assert(all.skip(i as int)[0] == hits@[i as int].deep_view());
        assert(all.skip(i as int).skip(1) =~= all.skip(i + 1));
        if hits[i].action.same_as(one) || hits[i].action.same_as(two) {
            return Some(&hits[i]);
        }
        i = i + 1;
    }
    None
}

// ---------------------------------------------------------------------------
// Anchors of dialogs and menus
// ---------------------------------------------------------------------------

/// The height of a row of text with some room around it.
pub open spec fn padded_row(cell_height: isize, padding: int) -> int {
    let cell = if cell_height < 1 {
        1
    } else {
        cell_height as int
    };
    if cell + padding > isize::MAX {
        isize::MAX as int
    } else {
        cell + padding
    }
}

fn padded_row_height(cell_height: isize, padding: u8) -> (r: usize)
    ensures
        r == padded_row(cell_height, padding as int),
{
    let cell: isize = if cell_height < 1 {
        1
    } else {
        cell_height
    };
    if cell > isize::MAX - padding as isize {
        isize::MAX as usize
    } else {
        (cell + padding as isize) as usize
    }
}

/// The panel that a dialog or a menu belongs to.
pub open spec fn panel_item(x: int, y: int, width: int, height: int) -> ItemView {
    ItemView {
        x: x as usize,
        y: y as usize,
        width: width as usize,
        height: height as usize,
        item_type: ItemTypeView::SidebarPanel,
    }
}

/// The width less the margins, but not less than zero.
pub open spec fn inner_width(width: int, margins: int) -> int {
    if width >= margins {
        width - margins
    } else {
        0
    }
}

/// The anchor of the dialog for a new project: over the row that asks for it, where it is shown.
pub open spec fn create_project_anchor(
    reserved: int,
    cell_height: isize,
    hits: Seq<HitView>,
) -> ItemView {
    match first_hit(hits, ActionView::CreateProject) {
        Some(hit) => panel_item(
            hit.x as int,
            hit.y as int,
            clamped(hit.width as int, 240, 560),
            if hit.height == 0 {
                1
            } else {
                hit.height as int
            },
        ),
        None => panel_item(
            12,
            32,
            clamped(inner_width(reserved, 24), 260, 560),
            padded_row(cell_height, 12),
        ),
    }
}

/// The anchor of the dialog for a new project.
pub fn sidebar_create_project_anchor(
    reserved_width_px: usize,
    cell_height: isize,
    hits: &Vec<WorkspaceSidebarActionHit>,
) -> (r: UIItem)
    ensures
        r.deep_view() == create_project_anchor(
            reserved_width_px as int,
            cell_height,
            hits.deep_view(),
        ),
{
    match find_hit(hits, &SidebarAction::CreateProject) {
        Some(hit) => UIItem {
            x: hit.x,
            y: hit.y,
            width: clamp(hit.width, 240, 560),
            height: if hit.height == 0 {
                1
            } else {
                hit.height
            },
            item_type: UIItemType::SidebarPanel,
        },
        None => UIItem {
            x: 12,
            y: 32,
            width: clamp(reserved_width_px.saturating_sub(24), 260, 560),
            height: padded_row_height(cell_height, 12),
            item_type: UIItemType::SidebarPanel,
        },
    }
}

/// The anchor of the dialog for a snippet.
pub fn sidebar_snippet_anchor(reserved_width_px: usize, cell_height: isize) -> (r: UIItem)
    ensures
        r.deep_view() == panel_item(
            12,
            32,
            clamped(inner_width(reserved_width_px as int, 24), 260, 560),
            padded_row(cell_height, 12),
        ),
{
    UIItem {
        x: 12,
        y: 32,
        width: clamp(reserved_width_px.saturating_sub(24), 260, 560),
        height: padded_row_height(cell_height, 12),
        item_type: UIItemType::SidebarPanel,
    }
}

/// The anchor of the dialog for a project's name: over its row, where it is shown.
pub open spec fn rename_project_anchor(
    project_id: Seq<char>,
    reserved: int,
    cell_height: isize,
    hits: Seq<HitView>,
) -> ItemView {
    match first_hit(hits, ActionView::ProjectRow { project_id }) {
        Some(hit) => panel_item(
            hit.x as int,
            hit.y as int,
            clamped(hit.width as int, 220, 560),
            if hit.height == 0 {
                1
            } else {
                hit.height as int
            },
        ),
        None => panel_item(
            12,
            64,
            clamped(inner_width(reserved, 24), 220, 560),
            padded_row(cell_height, 12),
        ),
    }
}

/// The anchor of the dialog for a project's name.
pub fn sidebar_rename_project_anchor(
    project_id: &str,
    reserved_width_px: usize,
    cell_height: isize,
    hits: &Vec<WorkspaceSidebarActionHit>,
) -> (r: UIItem)
    ensures
        r.deep_view() == rename_project_anchor(
            project_id@,
            reserved_width_px as int,
            cell_height,
            hits.deep_view(),
        ),
{
    let row = SidebarAction::ProjectRow { project_id: project_id.to_owned() };
    match find_hit(hits, &row) {
        Some(hit) => UIItem {
            x: hit.x,
            y: hit.y,
            width: clamp(hit.width, 220, 560),
            height: if hit.height == 0 {
                1
            } else {
                hit.height
            },
            item_type: UIItemType::SidebarPanel,
        },
        None => UIItem {
            x: 12,
            y: 64,
            width: clamp(reserved_width_px.saturating_sub(24), 220, 560),
            height: padded_row_height(cell_height, 12),
            item_type: UIItemType::SidebarPanel,
        },
    }
}

/// A rectangle in whole pixels.
#[derive(Debug, Clone, Copy, PartialEq, Eq, Structural)]
pub struct PixelRect {
    pub x: usize,
    pub y: usize,
    pub width: usize,
    pub height: usize,
}

/// The smaller of two numbers.
pub open spec fn smaller(a: int, b: int) -> int {
    if a <= b {
        a
    } else {
        b
    }
}

/// The anchor of the dialog for a session's title. With the sidebar shown it is centred over the
/// session's row, or at a third of the sidebar's height where the row is not shown; without the
/// sidebar it is in the middle of the window.
pub open spec fn rename_session_anchor(
    bounds: Option<PixelRect>,
    window_width: int,
    window_height: int,
    row_height: int,
    hit: Option<HitView>,
) -> ItemView {
    match bounds {
        Some(panel) => {
            let width = clamped(inner_width(panel.width as int, 24), 220, 520);
            let x = panel.x + inner_width(panel.width as int, width) / 2;
            match hit {
                Some(row) => panel_item(
                    x,
                    row.y as int,
                    width,
                    if row.height == 0 {
                        1
                    } else {
                        row.height as int
                    },
                ),
                None => panel_item(
                    x,
                    panel.y + smaller(
                        smaller(panel.height * 35, usize::MAX as int) / 100,
                        inner_width(panel.height as int, row_height + 4),
                    ),
                    width,
                    row_height,
                ),
            }
        },
        None => {
            let width = clamped(inner_width(window_width, 48), 260, 560);
            panel_item(
                inner_width(window_width, width) / 2,
                inner_width(window_height, row_height) / 2,
                width,
                row_height,
            )
        },
    }
}

/// The anchor of the dialog for a session's title. `bounds` is where the sidebar is, if it is shown;
/// it lies within the range of coordinates.
pub fn sidebar_rename_session_anchor(
    project_id: &str,
    session_id: &str,
    bounds: Option<PixelRect>,
    window_width: usize,
    window_height: usize,
    cell_height: isize,
    hits: &Vec<WorkspaceSidebarActionHit>,
) -> (r: UIItem)
    requires
        bounds matches Some(panel) ==> panel.x + panel.width <= usize::MAX && panel.y + panel.height
            <= usize::MAX,
    ensures
        r.deep_view() == rename_session_anchor(
            bounds,
            window_width as int,
            window_height as int,
            padded_row(cell_height, 12),
            first_hit_of(
                hits.deep_view(),
                ActionView::RenameSession { project_id: project_id@, session_id: session_id@ },
                ActionView::ActivateSession { project_id: project_id@, session_id: session_id@ },
            ),
        ),
{
    let rename = SidebarAction::RenameSession {
        project_id: project_id.to_owned(),
        session_id: session_id.to_owned(),
    };
    let activate = SidebarAction::ActivateSession {
        project_id: project_id.to_owned(),
        session_id: session_id.to_owned(),
    };
    let hit = find_hit_of(hits, &rename, &activate);
    let row_height: usize = padded_row_height(cell_height, 12);
    match bounds {
        Some(panel) => {
            let width: usize = clamp(panel.width.saturating_sub(24), 220, 520);
            let x: usize = panel.x + panel.width.saturating_sub(width) / 2;
            match hit {
                Some(row) => UIItem {
                    x,
                    y: row.y,
                    width,
                    height: if row.height == 0 {
                        1
                    } else {
                        row.height
                    },
                    item_type: UIItemType::SidebarPanel,
                },
                None => {
                    let product: u128 = panel.height as u128 * 35;
                    let capped: usize = if product > usize::MAX as u128 {
                        usize::MAX
                    } else {
                        product as usize
                    };
                    let third: usize = capped / 100;
                    let lowest: usize = panel.height.saturating_sub(row_height.saturating_add(4));
                    let down: usize = if third <= lowest {
                        third
                    } else {
                        lowest
                    };
                    assert(down <= panel.height);
                    UIItem {
                        x,
                        y: panel.y + down,
                        width,
                        height: row_height,
                        item_type: UIItemType::SidebarPanel,
                    }
                },
            }
        },
        None => {
            let width: usize = clamp(window_width.saturating_sub(48), 260, 560);
            UIItem {
                x: window_width.saturating_sub(width) / 2,
                y: window_height.saturating_sub(row_height) / 2,
                width,
                height: row_height,
                item_type: UIItemType::SidebarPanel,
            }
        },
    }
}

/// The anchor of a menu: at the pointer, as wide as the sidebar allows.
pub open spec fn menu_anchor(
    mouse_x: isize,
    mouse_y: isize,
    reserved_width_px: usize,
    cell_height: isize,
) -> ItemView {
    panel_item(
        if mouse_x < 0 {
            0
        } else {
            mouse_x as int
        },
        if mouse_y < 0 {
            0
        } else {
            mouse_y as int
        },
        clamped(inner_width(reserved_width_px as int, 24), 220, 360),
        padded_row(cell_height, 8),
    )
}

/// The anchor of a menu: at the pointer, as wide as the sidebar allows.
pub fn sidebar_menu_anchor(
    mouse_x: isize,
    mouse_y: isize,
    reserved_width_px: usize,
    cell_height: isize,
) -> (r: UIItem)
    ensures
        r.deep_view() == menu_anchor(mouse_x, mouse_y, reserved_width_px, cell_height),
{
    UIItem {
        x: if mouse_x < 0 {
            0
        } else {
            mouse_x as usize
        },
        y: if mouse_y < 0 {
            0
        } else {
            mouse_y as usize
        },
        width: clamp(reserved_width_px.saturating_sub(24), 220, 360),
        height: padded_row_height(cell_height, 8),
        item_type: UIItemType::SidebarPanel,
    }
}

// ---------------------------------------------------------------------------
// Layout of the painted lines
// ---------------------------------------------------------------------------

/// Where a line was painted, and whether the pointer is over it.
#[derive(Debug, Clone, Copy, PartialEq, Eq, Structural)]
pub struct PaintedRow {
    pub y: usize,
    pub height: usize,
    pub hovered: bool,
}

/// What can be hit in the sidebar.
pub struct Targets {
    pub items: Seq<ItemView>,
    pub hits: Seq<HitView>,
}

/// One more thing that can be hit: an action that opens a menu is no plain hit, because it needs to
/// know where the pointer is.
pub open spec fn with_target(targets: Targets, rect: PixelRect, action: ActionView) -> Targets {
    Targets {
        items: targets.items.push(
            ItemView {
                x: rect.x,
                y: rect.y,
                width: rect.width,
                height: rect.height,
                item_type: ItemTypeView::SidebarAction(action),
            },
        ),
        hits: if opens_menu(action) {
            targets.hits
        } else {
            targets.hits.push(
                HitView {
                    x: rect.x,
                    y: rect.y,
                    width: rect.width,
                    height: rect.height,
                    action,
                },
            )
        },
    }
}

/// The width of a button at the end of a line.
pub open spec fn button_width(width: int) -> int {
    let fitting = smaller(MORE_BUTTON_WIDTH_PX as int, inner_width(width, 16));
    if fitting >= 22 {
        fitting
    } else {
        22
    }
}

/// The targets with the buttons of a line, from the last one at the right edge to the left, as long
/// as there is room right of `left`.
pub open spec fn with_buttons(
    targets: Targets,
    buttons: Seq<ButtonView>,
    row: PaintedRow,
    right: int,
    left: int,
    width: int,
) -> Targets
    decreases buttons.len(),
{
    let x = if right - width >= left {
        right - width
    } else {
        left
    };
    if buttons.len() == 0 || x >= right {
        targets
    } else {
        let rect = PixelRect {
            x: x as usize,
            y: row.y,
            width: width as usize,
            height: if row.height == 0 {
                1
            } else {
                row.height
            },
        };
        let next = with_target(targets, rect, buttons.last().action);
        if x - 4 <= left {
            next
        } else {
            with_buttons(next, buttons.drop_last(), row, x - 4, left, width)
        }
    }
}

/// The targets with those of a line: the whole row does its action, and the buttons of a row under
/// the pointer do theirs.
pub open spec fn with_line(
    targets: Targets,
    line: LineView,
    row: PaintedRow,
    x: usize,
    width: usize,
) -> Targets {
    let with_action = match line.action {
        Some(action) => with_target(
            targets,
            PixelRect { x, y: row.y, width, height: row.height },
            action,
        ),
        None => targets,
    };
    if row.hovered {
        with_buttons(
            with_action,
            line.trailing_buttons,
            row,
            x + width - MORE_BUTTON_RIGHT_PADDING_PX,
            x + TEXT_LEFT_PADDING_PX,
            button_width(width as int),
        )
    } else {
        with_action
    }
}

/// The targets with those of painted lines, in order.
pub open spec fn with_lines(
    targets: Targets,
    lines: Seq<LineView>,
    rows: Seq<PaintedRow>,
    x: usize,
    width: usize,
) -> Targets
    decreases rows.len(),
{
    if rows.len() == 0 {
        targets
    } else {
        with_line(
            with_lines(targets, lines, rows.drop_last(), x, width),
            lines[rows.len() - 1],
            rows.last(),
            x,
            width,
        )
    }
}

/// The targets of the panel itself: the panel, and the handle at its right edge.
pub open spec fn panel_targets(panel: PixelRect) -> Targets {
    Targets {
        items: seq![
            ItemView {
                x: panel.x,
                y: panel.y,
                width: panel.width,
                height: panel.height,
                item_type: ItemTypeView::SidebarPanel,
            },
            ItemView {
                x: (panel.x + panel.width - RESIZE_HANDLE_WIDTH_PX) as usize,
                y: panel.y,
                width: RESIZE_HANDLE_WIDTH_PX,
                height: panel.height,
                item_type: ItemTypeView::SidebarResizeHandle,
            },
        ],
        hits: Seq::empty(),
    }
}

fn add_target(
    items: &mut Vec<UIItem>,
    hits: &mut Vec<WorkspaceSidebarActionHit>,
    rect: PixelRect,
    action: &SidebarAction,
)
    ensures
        (Targets { items: final(items).deep_view(), hits: final(hits).deep_view() }) == with_target(
            Targets { items: old(items).deep_view(), hits: old(hits).deep_view() },
            rect,
            action.deep_view(),
        ),
{
    let ghost items_before = items.deep_view();
    let ghost hits_before = hits.deep_view();
    let item = UIItem {
        x: rect.x,
        y: rect.y,
        width: rect.width,
        height: rect.height,
        item_type: UIItemType::SidebarAction(action.clone()),
    };
    let ghost item_view = item.deep_view();
    items.push(item);
    assert(items.deep_view() =~= items_before.push(item_view));
    if !sidebar_action_needs_pointer_position(action) {
        let hit = WorkspaceSidebarActionHit {
            x: rect.x,
            y: rect.y,
            width: rect.width,
            height: rect.height,
            action: action.clone(),
        };
        let ghost hit_view = hit.deep_view();
        hits.push(hit);
        assert(hits.deep_view() =~= hits_before.push(hit_view));
    }
}

/// The targets of two lists, over sequences.
pub open spec fn targets_of(items: Seq<ItemView>, hits: Seq<HitView>) -> Targets {
    Targets { items, hits }
}

fn add_buttons(
    items: &mut Vec<UIItem>,
    hits: &mut Vec<WorkspaceSidebarActionHit>,
    buttons: &Vec<SidebarTrailingButton>,
    row: PaintedRow,
    x: usize,
    width: usize,
)
    requires
        x + width <= usize::MAX,
        x + TEXT_LEFT_PADDING_PX <= usize::MAX,
    ensures
        targets_of(final(items).deep_view(), final(hits).deep_view()) == with_buttons(
            targets_of(old(items).deep_view(), old(hits).deep_view()),
            buttons.deep_view(),
            row,
            x + width - MORE_BUTTON_RIGHT_PADDING_PX,
            x + TEXT_LEFT_PADDING_PX,
            button_width(width as int),
        ),
{
    let room: usize = width.saturating_sub(16);
    let fitting: usize = if MORE_BUTTON_WIDTH_PX <= room {
        MORE_BUTTON_WIDTH_PX
    } else {
        room
    };
    let wide: usize = if fitting >= 22 {
        fitting
    } else {
        22
    };
    let left: i128 = x as i128 + TEXT_LEFT_PADDING_PX as i128;
    let mut right: i128 = x as i128 + width as i128 - MORE_BUTTON_RIGHT_PADDING_PX as i128;
    let ghost begun = targets_of(items.deep_view(), hits.deep_view());
    let ghost first_right = right as int;
    let ghost all = buttons.deep_view();
    let mut count: usize = buttons.len();
    assert(all.take(count as int) =~= all);
    while count > 0
        invariant_except_break
            count <= buttons@.len(),
            all == buttons.deep_view(),
            22 <= wide <= 28,
            wide == button_width(width as int),
            0 <= left <= usize::MAX,
            -8 <= right <= usize::MAX,
            with_buttons(begun, all, row, first_right, left as int, wide as int) == with_buttons(
                targets_of(items.deep_view(), hits.deep_view()),
                all.take(count as int),
                row,
                right as int,
                left as int,
                wide as int,
            ),
        ensures
            with_buttons(begun, all, row, first_right, left as int, wide as int) == targets_of(
                items.deep_view(),
                hits.deep_view(),
            ),
        decreases count,
    {
        let at: i128 = if right - wide as i128 >= left {
            right - wide as i128
        } else {
            left
        };
        if at >= right {
            break;
        }
        let ghost shown = all.take(count as int);
        assert(shown.last() == buttons@[count - 1].deep_view());
        assert(shown.drop_last() =~= all.take(count - 1));
        let rect = PixelRect {
            x: at as usize,
            y: row.y,
            width: wide,
            height: if row.height == 0 {
                1
            } else {
                row.height
            },
        };
        add_target(items, hits, rect, &buttons[count - 1].action);
        if at - 4 <= left {
            break;
        }
        right = at - 4;
        count = count - 1;
    }
}

/// What can be hit in the sidebar: the panel and its handle, and for each painted line its action
/// and, under the pointer, its buttons. `rows` says where the first lines were painted. The panel
/// is wider than its handle and lies within the range of coordinates.
pub fn sidebar_targets(
    panel: PixelRect,
    lines: &Vec<SidebarLine>,
    rows: &Vec<PaintedRow>,
) -> (r: (Vec<UIItem>, Vec<WorkspaceSidebarActionHit>))
    requires
        rows@.len() <= lines@.len(),
        panel.width >= RESIZE_HANDLE_WIDTH_PX,
        panel.x + panel.width <= usize::MAX,
        panel.x + TEXT_LEFT_PADDING_PX <= usize::MAX,
    ensures
        targets_of(r.0.deep_view(), r.1.deep_view()) == with_lines(
            panel_targets(panel),
            lines.deep_view(),
            rows@,
            panel.x,
            panel.width,
        ),
{
    let mut items: Vec<UIItem> = Vec::new();
    let mut hits: Vec<WorkspaceSidebarActionHit> = Vec::new();
    items.push(
        UIItem {
            x: panel.x,
            y: panel.y,
            width: panel.width,
            height: panel.height,
            item_type: UIItemType::SidebarPanel,
        },
    );
    items.push(
        UIItem {
            x: panel.x + panel.width - RESIZE_HANDLE_WIDTH_PX,
            y: panel.y,
            width: RESIZE_HANDLE_WIDTH_PX,
            height: panel.height,
            item_type: UIItemType::SidebarResizeHandle,
        },
    );
    assert(items.deep_view() =~= panel_targets(panel).items);
    assert(hits.deep_view() =~= panel_targets(panel).hits);
    let ghost all = lines.deep_view();
    let mut i: usize = 0;
    assert(rows@.take(0) =~= Seq::<PaintedRow>::empty());
    while i < rows.len()
        invariant
            i <= rows@.len() <= lines@.len(),
            panel.x + panel.width <= usize::MAX,
            panel.x + TEXT_LEFT_PADDING_PX <= usize::MAX,
            all == lines.deep_view(),
            targets_of(items.deep_view(), hits.deep_view()) == with_lines(
                panel_targets(panel),
                all,
                rows@.take(i as int),
                panel.x,
                panel.width,
            ),
        decreases rows@.len() - i,
    {
        let row = rows[i];
        let line = &lines[i];
        proof {
            assert(rows@.take(i + 1).drop_last() =~= rows@.take(i as int));
            assert(rows@.take(i + 1).last() == row);
            assert(all[i as int] == line.deep_view());
        }
        match &line.action {
            Some(action) => {
                add_target(
                    &mut items,
                    &mut hits,
                    PixelRect { x: panel.x, y: row.y, width: panel.width, height: row.height },
                    action,
                );
            },
            None => {},
        }
        if row.hovered {
            add_buttons(
                &mut items,
                &mut hits,
                &line.trailing_buttons,
                row,
                panel.x,
                panel.width,
            );
        }
        i = i + 1;
    }
    assert(rows@.take(i as int) =~= rows@);
    (items, hits)
}

} // verus!
