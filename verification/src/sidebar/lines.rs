//! The lines of the sidebar.
use vstd::prelude::*;

use crate::agent_status::events::SessionStatusConfidence;
use crate::sidebar::action::{ActionView, SidebarAction};
use crate::sidebar::labels::{shortened, truncate_middle};
use crate::sidebar::model::{
    ProjectView, SessionView, SnippetEntry, SnippetEntryView, WorkspaceSidebarProject,
    WorkspaceSidebarSession,
};
use crate::sidebar::status::{
    confidence_of, parse_session_status_confidence, parse_session_status_source,
    sidebar_status_is_animating, sidebar_status_signal_tag, sidebar_status_source_label,
    sidebar_status_spinner_frame, signal_tag, source_of, spinner_frame, SidebarLineTone,
    SidebarSessionStatus,
};
use crate::text::{begins, char_count, is_empty, joined, same_text, trim, trimmed};

verus! {

/// A background that sets a line off.
#[derive(Debug, Clone, Copy, PartialEq, Eq, Structural)]
pub enum SidebarLineBackground {
    CurrentSession,
}

/// A button at the end of a line.
#[derive(Debug, PartialEq, Eq)]
pub struct SidebarTrailingButton {
    pub label: &'static str,
    pub action: SidebarAction,
}

/// A [`SidebarTrailingButton`] over sequences.
pub struct ButtonView {
    pub label: Seq<char>,
    pub action: ActionView,
}

impl DeepView for SidebarTrailingButton {
    type V = ButtonView;

    open spec fn deep_view(&self) -> ButtonView {
        ButtonView { label: self.label@, action: self.action.deep_view() }
    }
}

/// A line of the sidebar.
#[derive(Debug, PartialEq, Eq)]
pub struct SidebarLine {
    pub text: String,
    pub is_header: bool,
    pub tone: SidebarLineTone,
    pub background: Option<SidebarLineBackground>,
    pub action: Option<SidebarAction>,
    pub trailing_buttons: Vec<SidebarTrailingButton>,
}

/// A [`SidebarLine`] over sequences.
pub struct LineView {
    pub text: Seq<char>,
    pub is_header: bool,
    pub tone: SidebarLineTone,
    pub background: Option<SidebarLineBackground>,
    pub action: Option<ActionView>,
    pub trailing_buttons: Seq<ButtonView>,
}

impl DeepView for SidebarLine {
    type V = LineView;

    open spec fn deep_view(&self) -> LineView {
        LineView {
            text: self.text@,
            is_header: self.is_header,
            tone: self.tone,
            background: self.background,
            action: match self.action {
                Some(action) => Some(action.deep_view()),
                None => None,
            },
            trailing_buttons: self.trailing_buttons.deep_view(),
        }
    }
}

/// A line that does nothing.
pub open spec fn plain_line(text: Seq<char>, is_header: bool) -> LineView {
    LineView {
        text,
        is_header,
        tone: SidebarLineTone::Default,
        background: None,
        action: None,
        trailing_buttons: Seq::empty(),
    }
}

/// A line that does something when it is chosen.
pub open spec fn action_line(text: Seq<char>, action: ActionView) -> LineView {
    LineView {
        text,
        is_header: false,
        tone: SidebarLineTone::Default,
        background: None,
        action: Some(action),
        trailing_buttons: Seq::empty(),
    }
}

impl LineView {
    /// The line in a tone.
    pub open spec fn toned(self, tone: SidebarLineTone) -> LineView {
        LineView { tone, ..self }
    }

    /// The line with one more button.
    pub open spec fn with_button(self, label: Seq<char>, action: ActionView) -> LineView {
        LineView {
            trailing_buttons: self.trailing_buttons.push(ButtonView { label, action }),
            ..self
        }
    }
}

impl SidebarLine {
    /// A line that does nothing.
    pub fn new(text: &str, is_header: bool) -> (r: SidebarLine)
        ensures
            r.deep_view() == plain_line(text@, is_header),
    {
        let r = SidebarLine {
            text: text.to_owned(),
            is_header,
            tone: SidebarLineTone::Default,
            background: None,
            action: None,
            trailing_buttons: Vec::new(),
        };
        assert(r.trailing_buttons.deep_view() =~= Seq::<ButtonView>::empty());
        r
    }

    /// A line that does something when it is chosen.
    pub fn action(text: &str, action: SidebarAction) -> (r: SidebarLine)
        ensures
            r.deep_view() == action_line(text@, action.deep_view()),
    {
        let r = SidebarLine {
            text: text.to_owned(),
            is_header: false,
            tone: SidebarLineTone::Default,
            background: None,
            action: Some(action),
            trailing_buttons: Vec::new(),
        };
        assert(r.trailing_buttons.deep_view() =~= Seq::<ButtonView>::empty());
        r
    }

    /// The line in a tone.
    pub fn with_tone(self, tone: SidebarLineTone) -> (r: SidebarLine)
        ensures
            r.deep_view() == self.deep_view().toned(tone),
    {
        let mut line = self;
        line.tone = tone;
        line
    }

    /// The line with a background.
    pub fn with_background(self, background: SidebarLineBackground) -> (r: SidebarLine)
        ensures
            r.deep_view() == (LineView { background: Some(background), ..self.deep_view() }),
    {
        let mut line = self;
        line.background = Some(background);
        line
    }

    /// The line with one more button.
    pub fn with_trailing_button(self, label: &'static str, action: SidebarAction) -> (r: SidebarLine)
        ensures
            r.deep_view() == self.deep_view().with_button(label@, action.deep_view()),
    {
        let ghost before = self.deep_view();
        let mut line = self;
        let button = SidebarTrailingButton { label, action };
        let ghost view = button.deep_view();
        line.trailing_buttons.push(button);
        assert(line.trailing_buttons.deep_view() =~= before.trailing_buttons.push(view));
        line
    }
}

fn add_line(lines: &mut Vec<SidebarLine>, line: SidebarLine)
    ensures
        final(lines).deep_view() == old(lines).deep_view().push(line.deep_view()),
{
    let ghost before = lines.deep_view();
    let ghost view = line.deep_view();
    lines.push(line);
    assert(lines.deep_view() =~= before.push(view));
}

/// `a` less `b`, but not less than zero.
pub open spec fn less(a: nat, b: nat) -> nat {
    if a >= b {
        (a - b) as nat
    } else {
        0
    }
}

/// The larger of two numbers.
pub open spec fn larger(a: nat, b: nat) -> nat {
    if a >= b {
        a
    } else {
        b
    }
}

/// How many sessions of a project and how many snippets are listed.
pub const LISTED: usize = 8;

// ---------------------------------------------------------------------------
// Sessions
// ---------------------------------------------------------------------------

/// The mark before a session: whether it is pinned and, unless it is idle, its status and where that
/// came from, with the spinner while it loads.
pub open spec fn status_chip(session: SessionView, elapsed_ms: nat) -> Seq<char> {
    let status = SidebarSessionStatus::shown(session.status);
    let pin = if session.pinned {
        "📌"@
    } else {
        "·"@
    };
    let tag = signal_tag(
        source_of(session.status_source),
        confidence_of(session.status_confidence),
    );
    let head = "["@ + pin + "|"@ + status.badge_text() + "|"@ + tag;
    if status is Idle {
        "["@ + pin + "]"@
    } else if status is Loading {
        head + "|"@ + seq![spinner_frame(elapsed_ms)] + "]"@
    } else {
        head + "]"@
    }
}

/// How much room the title of a session has beside its mark.
pub open spec fn title_budget(budget: nat, chip: Seq<char>) -> nat {
    larger(less(budget, chip.len() + 4), 12)
}

/// The row of a session.
pub open spec fn session_row(
    project_id: Seq<char>,
    session: SessionView,
    current: bool,
    budget: nat,
    elapsed_ms: nat,
) -> LineView {
    let chip = status_chip(session, elapsed_ms);
    let text = "  "@ + chip + " "@ + shortened(session.title, title_budget(budget, chip));
    let line = action_line(
        text,
        ActionView::ActivateSession { project_id, session_id: session.id },
    ).toned(SidebarSessionStatus::shown(session.status).line_tone()).with_button(
        "⋯"@,
        ActionView::OpenSessionContextMenu { project_id, session_id: session.id },
    );
    if current {
        LineView { background: Some(SidebarLineBackground::CurrentSession), ..line }
    } else {
        line
    }
}

/// What a session that waits for an approval says below its row.
pub open spec fn approval_text(session: SessionView, budget: nat) -> Seq<char> {
    let detail = trimmed(session.status_reason);
    let head = if confidence_of(session.status_confidence) is Low {
        "approval maybe required [low confidence]"@
    } else {
        "approval required"@
    };
    if detail.len() == 0 {
        "      "@ + head + ": review and choose allow/deny"@
    } else {
        "      "@ + head + ": "@ + shortened(detail, larger(less(budget, 30), 20))
    }
}

/// What is said below the row of a session: what approval it waits for, or how its status was
/// guessed.
pub open spec fn session_note(session: SessionView, budget: nat) -> Option<LineView> {
    let status = SidebarSessionStatus::shown(session.status);
    if status is NeedApprove {
        Some(plain_line(approval_text(session, budget), false).toned(SidebarLineTone::Warning))
    } else if confidence_of(session.status_confidence) is Low && (status is Loading
        || status is Running || status is Unknown) {
        Some(
            plain_line(
                "      signal: "@ + source_of(session.status_source).storage_text()
                    + " (low confidence)"@,
                false,
            ).toned(SidebarLineTone::Muted),
        )
    } else {
        None
    }
}

/// The lines of a session.
pub open spec fn session_lines(
    project_id: Seq<char>,
    session: SessionView,
    active: Option<(Seq<char>, Seq<char>)>,
    budget: nat,
    elapsed_ms: nat,
) -> Seq<LineView> {
    let current = active == Some((project_id, session.id));
    let row = session_row(project_id, session, current, budget, elapsed_ms);
    match session_note(session, budget) {
        Some(note) => seq![row, note],
        None => seq![row],
    }
}

/// The lines of sessions, in order.
pub open spec fn sessions_lines(
    project_id: Seq<char>,
    sessions: Seq<SessionView>,
    active: Option<(Seq<char>, Seq<char>)>,
    budget: nat,
    elapsed_ms: nat,
) -> Seq<LineView>
    decreases sessions.len(),
{
    if sessions.len() == 0 {
        Seq::empty()
    } else {
        sessions_lines(project_id, sessions.drop_last(), active, budget, elapsed_ms)
            + session_lines(project_id, sessions.last(), active, budget, elapsed_ms)
    }
}

/// At most as many of the sessions as are listed.
pub open spec fn listed<T>(items: Seq<T>) -> Seq<T> {
    if items.len() <= LISTED {
        items
    } else {
        items.take(LISTED as int)
    }
}

/// A binding over sequences.
pub open spec fn active_view(active: Option<(String, String)>) -> Option<(Seq<char>, Seq<char>)> {
    match active {
        Some(pair) => Some((pair.0@, pair.1@)),
        None => None,
    }
}

fn status_chip_text(session: &WorkspaceSidebarSession, elapsed_ms: u128) -> (r: String)
    ensures
        r@ == status_chip(session.deep_view(), elapsed_ms as nat),
{
    let status = SidebarSessionStatus::parse(session.status.as_str());
    let source = parse_session_status_source(session.status_source.as_str());
    let confidence = parse_session_status_confidence(session.status_confidence.as_str());
    let mut chip = "[".to_owned();
    chip.append(
        if session.pinned {
            "📌"
        } else {
            "·"
        },
    );
    if status == SidebarSessionStatus::Idle {
        chip.append("]");
        return chip;
    }
    chip.append("|");
    chip.append(status.badge());
    chip.append("|");
    chip.append(sidebar_status_signal_tag(source, confidence));
    if sidebar_status_is_animating(status) {
        chip.append("|");
        let frame = sidebar_status_spinner_frame(elapsed_ms);
        let ghost before = chip@;
        chip.push(frame);
        assert(before.push(frame) =~= before + seq![frame]);
    }
    chip.append("]");
    chip
}

fn session_line(
    project_id: &str,
    session: &WorkspaceSidebarSession,
    current: bool,
    budget: usize,
    elapsed_ms: u128,
) -> (r: SidebarLine)
    ensures
        r.deep_view() == session_row(
            project_id@,
            session.deep_view(),
            current,
            budget as nat,
            elapsed_ms as nat,
        ),
{
    let chip = status_chip_text(session, elapsed_ms);
    let chip_len: usize = char_count(chip.as_str());
    let used: usize = chip_len.saturating_add(4);
    let rest: usize = budget.saturating_sub(used);
    let room: usize = if rest >= 12 {
        rest
    } else {
        12
    };
    assert(room == title_budget(budget as nat, chip@));
    let mut text = "  ".to_owned();
    text.append(chip.as_str());
    text.append(" ");
    text.append(truncate_middle(session.title.as_str(), room).as_str());
    let status = SidebarSessionStatus::parse(session.status.as_str());
    let line = SidebarLine::action(
        text.as_str(),
        SidebarAction::ActivateSession {
            project_id: project_id.to_owned(),
            session_id: session.id.clone(),
        },
    ).with_tone(status.tone()).with_trailing_button(
        "⋯",
        SidebarAction::OpenSessionContextMenu {
            project_id: project_id.to_owned(),
            session_id: session.id.clone(),
        },
    );
    if current {
        line.with_background(SidebarLineBackground::CurrentSession)
    } else {
        line
    }
}

fn note_line(session: &WorkspaceSidebarSession, budget: usize) -> (r: Option<SidebarLine>)
    ensures
        r.deep_view() == session_note(session.deep_view(), budget as nat),
{
    let status = SidebarSessionStatus::parse(session.status.as_str());
    let confidence = parse_session_status_confidence(session.status_confidence.as_str());
    let low = matches!(confidence, SessionStatusConfidence::Low);
    if matches!(status, SidebarSessionStatus::NeedApprove) {
        let detail = trim(session.status_reason.as_str());
        let mut text = "      ".to_owned();
        text.append(
            if low {
                "approval maybe required [low confidence]"
            } else {
                "approval required"
            },
        );
        if is_empty(detail.as_str()) {
            text.append(": review and choose allow/deny");
        } else {
            let rest: usize = budget.saturating_sub(30);
            let room: usize = if rest >= 20 {
                rest
            } else {
                20
            };
            text.append(": ");
            text.append(truncate_middle(detail.as_str(), room).as_str());
        }
        return Some(SidebarLine::new(text.as_str(), false).with_tone(SidebarLineTone::Warning));
    }
    if low && matches!(
        status,
        SidebarSessionStatus::Loading | SidebarSessionStatus::Running
            | SidebarSessionStatus::Unknown
    ) {
        let source = parse_session_status_source(session.status_source.as_str());
        let mut text = "      signal: ".to_owned();
        text.append(sidebar_status_source_label(source));
        text.append(" (low confidence)");
        return Some(SidebarLine::new(text.as_str(), false).with_tone(SidebarLineTone::Muted));
    }
    None
}

fn is_current(active: &Option<(String, String)>, project_id: &str, session_id: &str) -> (r: bool)
    ensures
        r == (active_view(*active) == Some((project_id@, session_id@))),
{
    match active {
        Some(pair) => same_text(pair.0.as_str(), project_id) && same_text(
            pair.1.as_str(),
            session_id,
        ),
        None => false,
    }
}

/// Some listed session loads.
pub open spec fn some_loading(sessions: Seq<SessionView>) -> bool {
    exists|i: int|
        0 <= i < sessions.len() && SidebarSessionStatus::shown((#[trigger] sessions[i]).status)
            is Loading
}

fn add_session_lines(
    lines: &mut Vec<SidebarLine>,
    project: &WorkspaceSidebarProject,
    active: &Option<(String, String)>,
    budget: usize,
    elapsed_ms: u128,
) -> (r: bool)
    ensures
        final(lines).deep_view() == old(lines).deep_view() + sessions_lines(
            project.id@,
            listed(project.sessions.deep_view()),
            active_view(*active),
            budget as nat,
            elapsed_ms as nat,
        ),
        r == some_loading(listed(project.sessions.deep_view())),
{
    let ghost begun = lines.deep_view();
    let ghost all = project.sessions.deep_view();
    let ghost act = active_view(*active);
    assert(all.len() == project.sessions@.len());
    let count: usize = if project.sessions.len() <= LISTED {
        project.sessions.len()
    } else {
        LISTED
    };
    let mut loading = false;
    let mut i: usize = 0;
    assert(begun + sessions_lines(
        project.id@,
        all.take(0),
        act,
        budget as nat,
        elapsed_ms as nat,
    ) =~= begun);
    while i < count
        invariant
            i <= count <= project.sessions@.len(),
            all == project.sessions.deep_view(),
            act == active_view(*active),
            lines.deep_view() == begun + sessions_lines(
                project.id@,
                all.take(i as int),
                act,
                budget as nat,
                elapsed_ms as nat,
            ),
            loading == some_loading(all.take(i as int)),
        decreases count - i,
    {
        let session = &project.sessions[i];
        let ghost view = session.deep_view();
        let ghost before = lines.deep_view();
        let ghost shown = all.take(i as int);
        proof {
            assert(all.take(i + 1).drop_last() =~= shown);
            assert(all.take(i + 1).last() == view);
        }
        let current = is_current(active, project.id.as_str(), session.id.as_str());
        let line = session_line(project.id.as_str(), session, current, budget, elapsed_ms);
        add_line(lines, line);
        match note_line(session, budget) {
            Some(note) => {
                add_line(lines, note);
            },
            None => {},
        }
        proof {
            let more = session_lines(project.id@, view, act, budget as nat, elapsed_ms as nat);
            assert(lines.deep_view() =~= before + more);
            assert(begun + (sessions_lines(
                project.id@,
                shown,
                act,
                budget as nat,
                elapsed_ms as nat,
            ) + more) =~= before + more);
        }
        let status = SidebarSessionStatus::parse(session.status.as_str());
        proof {
            let next = all.take(i + 1);
            if some_loading(shown) {
                let j = choose|j: int|
                    0 <= j < shown.len() && SidebarSessionStatus::shown(
                        (#[trigger] shown[j]).status,
                    ) is Loading;
                assert(next[j] == shown[j]);
            }
            if status is Loading {
                assert(next[i as int] == view);
            }
            if some_loading(next) {
                let j = choose|j: int|
                    0 <= j < next.len() && SidebarSessionStatus::shown(
                        (#[trigger] next[j]).status,
                    ) is Loading;
                if j < i {
                    assert(shown[j] == next[j]);
                }
            }
        }
        if sidebar_status_is_animating(status) {
            loading = true;
        }
        i = i + 1;
    }
    assert(all.take(count as int) =~= listed(all));
    loading
}

// ---------------------------------------------------------------------------
// Projects
// ---------------------------------------------------------------------------

/// The row of a project.
pub open spec fn project_row(project: ProjectView, budget: nat) -> LineView {
    action_line(
        "- "@ + shortened(project.name, budget),
        ActionView::ProjectRow { project_id: project.id },
    ).with_button(
        "+"@,
        ActionView::CreateSessionInProject { project_id: project.id },
    ).with_button("⋯"@, ActionView::OpenProjectContextMenu { project_id: project.id })
}

/// The lines of a project: its row, its sessions or that it has none, and an empty line.
pub open spec fn project_lines(
    project: ProjectView,
    active: Option<(Seq<char>, Seq<char>)>,
    budget: nat,
    elapsed_ms: nat,
) -> Seq<LineView> {
    let inner = if project.sessions.len() == 0 {
        seq![plain_line("    (no sessions)"@, false).toned(SidebarLineTone::Muted)]
    } else {
        sessions_lines(project.id, listed(project.sessions), active, budget, elapsed_ms)
    };
    seq![project_row(project, budget)] + inner + seq![plain_line(""@, false)]
}

/// The lines of projects, in order.
pub open spec fn projects_lines(
    projects: Seq<ProjectView>,
    active: Option<(Seq<char>, Seq<char>)>,
    budget: nat,
    elapsed_ms: nat,
) -> Seq<LineView>
    decreases projects.len(),
{
    if projects.len() == 0 {
        Seq::empty()
    } else {
        projects_lines(projects.drop_last(), active, budget, elapsed_ms) + project_lines(
            projects.last(),
            active,
            budget,
            elapsed_ms,
        )
    }
}

/// Some listed session of some project loads.
pub open spec fn animates(projects: Seq<ProjectView>) -> bool {
    exists|i: int| 0 <= i < projects.len() && some_loading(listed((#[trigger] projects[i]).sessions))
}

fn add_project_lines(
    lines: &mut Vec<SidebarLine>,
    project: &WorkspaceSidebarProject,
    active: &Option<(String, String)>,
    budget: usize,
    elapsed_ms: u128,
) -> (r: bool)
    ensures
        final(lines).deep_view() == old(lines).deep_view() + project_lines(
            project.deep_view(),
            active_view(*active),
            budget as nat,
            elapsed_ms as nat,
        ),
        r == some_loading(listed(project.sessions.deep_view())),
{
    let ghost begun = lines.deep_view();
    let ghost view = project.deep_view();
    assert(view.sessions.len() == project.sessions@.len());
    let row = SidebarLine::action(
        joined("- ", truncate_middle(project.name.as_str(), budget).as_str()).as_str(),
        SidebarAction::ProjectRow { project_id: project.id.clone() },
    ).with_trailing_button(
        "+",
        SidebarAction::CreateSessionInProject { project_id: project.id.clone() },
    ).with_trailing_button(
        "⋯",
        SidebarAction::OpenProjectContextMenu { project_id: project.id.clone() },
    );
    add_line(lines, row);
    let ghost with_row = lines.deep_view();
    let loading = if project.sessions.len() == 0 {
        add_line(
            lines,
            SidebarLine::new("    (no sessions)", false).with_tone(SidebarLineTone::Muted),
        );
        false
    } else {
        add_session_lines(lines, project, active, budget, elapsed_ms)
    };
    let ghost with_inner = lines.deep_view();
    add_line(lines, SidebarLine::new("", false));
    proof {
        let inner = if view.sessions.len() == 0 {
            seq![plain_line("    (no sessions)"@, false).toned(SidebarLineTone::Muted)]
        } else {
            sessions_lines(
                view.id,
                listed(view.sessions),
                active_view(*active),
                budget as nat,
                elapsed_ms as nat,
            )
        };
        assert(with_inner =~= with_row + inner);
        assert(lines.deep_view() =~= begun + project_lines(
            view,
            active_view(*active),
            budget as nat,
            elapsed_ms as nat,
        ));
    }
    loading
}

// ---------------------------------------------------------------------------
// Resources
// ---------------------------------------------------------------------------

/// The snippets of the project whose resources are shown, or why they could not be read.
pub struct ResourceSection {
    pub project_id: String,
    pub project_label: String,
    pub snippets: Result<Vec<SnippetEntry>, String>,
}

/// A [`ResourceSection`] over sequences.
pub struct ResourceView {
    pub project_id: Seq<char>,
    pub project_label: Seq<char>,
    pub snippets: Result<Seq<SnippetEntryView>, Seq<char>>,
}

impl DeepView for ResourceSection {
    type V = ResourceView;

    open spec fn deep_view(&self) -> ResourceView {
        ResourceView {
            project_id: self.project_id@,
            project_label: self.project_label@,
            snippets: match self.snippets {
                Ok(list) => Ok(list.deep_view()),
                Err(message) => Err(message@),
            },
        }
    }
}

/// The row of a snippet.
pub open spec fn snippet_row(
    project_id: Seq<char>,
    snippet: SnippetEntryView,
    budget: nat,
) -> LineView {
    action_line(
        "    > "@ + shortened(snippet.name, less(budget, 8)),
        ActionView::InsertSnippet { project_id, snippet_id: snippet.id },
    ).with_button(
        "⋯"@,
        ActionView::OpenSnippetContextMenu { project_id, snippet_id: snippet.id },
    )
}

/// The rows of snippets, in order.
pub open spec fn snippet_rows(
    project_id: Seq<char>,
    snippets: Seq<SnippetEntryView>,
    budget: nat,
) -> Seq<LineView> {
    Seq::new(snippets.len(), |i: int| snippet_row(project_id, snippets[i], budget))
}

/// The lines about the snippets of a project.
pub open spec fn snippets_lines(section: ResourceView, budget: nat) -> Seq<LineView> {
    match section.snippets {
        Ok(snippets) => if snippets.len() == 0 {
            seq![plain_line("  Snippets: (none)"@, false).toned(SidebarLineTone::Muted)]
        } else {
            seq![plain_line("  Snippets"@, false).toned(SidebarLineTone::Info)] + snippet_rows(
                section.project_id,
                listed(snippets),
                budget,
            )
        },
        Err(message) => seq![
            plain_line(
                "  Snippets load error: "@ + shortened(message, less(budget, 8)),
                false,
            ).toned(SidebarLineTone::Warning),
        ],
    }
}

/// The lines about resources.
pub open spec fn resource_lines(section: Option<ResourceView>, budget: nat) -> Seq<LineView> {
    match section {
        Some(shown) => seq![
            plain_line(
                "Resources ("@ + shown.project_label + ")"@,
                true,
            ).toned(SidebarLineTone::Info).with_button(
                "+"@,
                ActionView::CreateSnippet { project_id: shown.project_id },
            ),
        ] + snippets_lines(shown, budget) + seq![
            plain_line("  Env (next)"@, false).toned(SidebarLineTone::Muted),
            plain_line("  Files (next)"@, false).toned(SidebarLineTone::Muted),
        ],
        None => seq![
            plain_line("Resources"@, true).toned(SidebarLineTone::Info),
            plain_line("  Select a project to manage resources"@, false).toned(
                SidebarLineTone::Muted,
            ),
        ],
    }
}

fn add_snippet_lines(lines: &mut Vec<SidebarLine>, section: &ResourceSection, budget: usize)
    ensures
        final(lines).deep_view() == old(lines).deep_view() + snippets_lines(
            section.deep_view(),
            budget as nat,
        ),
{
    let ghost begun = lines.deep_view();
    match &section.snippets {
        Ok(snippets) => {
            let ghost all = snippets.deep_view();
            assert(all.len() == snippets@.len());
            if snippets.len() == 0 {
                add_line(
                    lines,
                    SidebarLine::new("  Snippets: (none)", false).with_tone(SidebarLineTone::Muted),
                );
                assert(lines.deep_view() =~= begun + snippets_lines(
                    section.deep_view(),
                    budget as nat,
                ));
                return;
            }
            add_line(
                lines,
                SidebarLine::new("  Snippets", false).with_tone(SidebarLineTone::Info),
            );
            let ghost headed = lines.deep_view();
            let count: usize = if snippets.len() <= LISTED {
                snippets.len()
            } else {
                LISTED
            };
            let room: usize = budget.saturating_sub(8);
            let ghost rows = snippet_rows(section.project_id@, listed(all), budget as nat);
            let mut i: usize = 0;
            assert(headed + rows.take(0) =~= headed);
            while i < count
                invariant
                    i <= count <= snippets@.len(),
                    count == listed(all).len(),
                    count == rows.len(),
                    room == less(budget as nat, 8),
                    all == snippets.deep_view(),
                    rows == snippet_rows(section.project_id@, listed(all), budget as nat),
                    lines.deep_view() == headed + rows.take(i as int),
                decreases count - i,
            {
                let snippet = &snippets[i];
                let ghost before = lines.deep_view();
                assert(listed(all)[i as int] == snippet.deep_view());
                let line = SidebarLine::action(
                    joined(
                        "    > ",
                        truncate_middle(snippet.name.as_str(), room).as_str(),
                    ).as_str(),
                    SidebarAction::InsertSnippet {
                        project_id: section.project_id.clone(),
                        snippet_id: snippet.id.clone(),
                    },
                ).with_trailing_button(
                    "⋯",
                    SidebarAction::OpenSnippetContextMenu {
                        project_id: section.project_id.clone(),
                        snippet_id: snippet.id.clone(),
                    },
                );
                let ghost view = line.deep_view();
                add_line(lines, line);
                proof {
                    assert(view == rows[i as int]);
                    assert(before.push(view) =~= headed + rows.take(i + 1));
                }
                i = i + 1;
            }
            proof {
                assert(rows.take(count as int) =~= rows);
                assert(lines.deep_view() =~= begun + snippets_lines(
                    section.deep_view(),
                    budget as nat,
                ));
            }
        },
        Err(message) => {
            let room: usize = budget.saturating_sub(8);
            let text = joined(
                "  Snippets load error: ",
                truncate_middle(message.as_str(), room).as_str(),
            );
            add_line(
                lines,
                SidebarLine::new(text.as_str(), false).with_tone(SidebarLineTone::Warning),
            );
            assert(lines.deep_view() =~= begun + snippets_lines(
                section.deep_view(),
                budget as nat,
            ));
        },
    }
}

fn add_resource_lines(
    lines: &mut Vec<SidebarLine>,
    section: &Option<ResourceSection>,
    budget: usize,
)
    ensures
        final(lines).deep_view() == old(lines).deep_view() + resource_lines(
            section.deep_view(),
            budget as nat,
        ),
{
    let ghost begun = lines.deep_view();
    match section {
        Some(shown) => {
            let mut title = "Resources (".to_owned();
            title.append(shown.project_label.as_str());
            title.append(")");
            add_line(
                lines,
                SidebarLine::new(title.as_str(), true).with_tone(
                    SidebarLineTone::Info,
                ).with_trailing_button(
                    "+",
                    SidebarAction::CreateSnippet { project_id: shown.project_id.clone() },
                ),
            );
            add_snippet_lines(lines, shown, budget);
            add_line(
                lines,
                SidebarLine::new("  Env (next)", false).with_tone(SidebarLineTone::Muted),
            );
            add_line(
                lines,
                SidebarLine::new("  Files (next)", false).with_tone(SidebarLineTone::Muted),
            );
        },
        None => {
            add_line(lines, SidebarLine::new("Resources", true).with_tone(SidebarLineTone::Info));
            add_line(
                lines,
                SidebarLine::new("  Select a project to manage resources", false).with_tone(
                    SidebarLineTone::Muted,
                ),
            );
        },
    }
    assert(lines.deep_view() =~= begun + resource_lines(section.deep_view(), budget as nat));
}

// ---------------------------------------------------------------------------
// The whole sidebar
// ---------------------------------------------------------------------------

/// The lines above the projects.
pub open spec fn heading_lines(empty: bool) -> Seq<LineView> {
    let heading = seq![
        plain_line("WORKSPACE"@, true).toned(SidebarLineTone::Info),
        plain_line(""@, false),
        plain_line("Projects"@, true).toned(SidebarLineTone::Info).with_button(
            "+"@,
            ActionView::CreateProject,
        ),
    ];
    if empty {
        heading.push(plain_line("  (none)"@, false).toned(SidebarLineTone::Muted))
    } else {
        heading
    }
}

/// The lines about a failure to load.
pub open spec fn error_lines(error: Option<Seq<char>>, budget: nat) -> Seq<LineView> {
    match error {
        Some(message) => seq![
            plain_line(""@, false),
            plain_line("Load error"@, true),
            plain_line("  "@ + shortened(message, budget), false),
        ],
        None => Seq::empty(),
    }
}

/// The lines of the sidebar.
pub open spec fn sidebar_lines(
    projects: Seq<ProjectView>,
    active: Option<(Seq<char>, Seq<char>)>,
    section: Option<ResourceView>,
    error: Option<Seq<char>>,
    budget: nat,
    elapsed_ms: nat,
) -> Seq<LineView> {
    heading_lines(projects.len() == 0) + projects_lines(projects, active, budget, elapsed_ms)
        + resource_lines(section, budget) + seq![plain_line(""@, false)] + error_lines(
        error,
        budget,
    )
}

/// One project more: its lines come last, and a spinner has to go on where one had to before or the
/// project has a session that loads.
proof fn lemma_next_project(
    all: Seq<ProjectView>,
    i: int,
    active: Option<(Seq<char>, Seq<char>)>,
    budget: nat,
    elapsed_ms: nat,
)
    requires
        0 <= i < all.len(),
    ensures
        projects_lines(all.take(i + 1), active, budget, elapsed_ms) == projects_lines(
            all.take(i),
            active,
            budget,
            elapsed_ms,
        ) + project_lines(all[i], active, budget, elapsed_ms),
        animates(all.take(i + 1)) == (animates(all.take(i)) || some_loading(
            listed(all[i].sessions),
        )),
{
    let shown = all.take(i);
    let next = all.take(i + 1);
    assert(next.drop_last() =~= shown);
    assert(next.last() == all[i]);
    if animates(shown) {
        let j = choose|j: int|
            0 <= j < shown.len() && some_loading(listed((#[trigger] shown[j]).sessions));
        assert(next[j] == shown[j]);
    }
    if some_loading(listed(all[i].sessions)) {
        assert(next[i] == all[i]);
    }
    if animates(next) {
        let j = choose|j: int|
            0 <= j < next.len() && some_loading(listed((#[trigger] next[j]).sessions));
        if j < i {
            assert(shown[j] == next[j]);
        }
    }
}

/// The lines of the sidebar, and whether a spinner among them has to go on.
pub fn build_workspace_sidebar_lines(
    projects: &Vec<WorkspaceSidebarProject>,
    active_session: &Option<(String, String)>,
    resources: &Option<ResourceSection>,
    last_load_error: &Option<String>,
    line_char_budget: usize,
    elapsed_ms: u128,
) -> (r: (Vec<SidebarLine>, bool))
    ensures
        r.0.deep_view() == sidebar_lines(
            projects.deep_view(),
            active_view(*active_session),
            resources.deep_view(),
            last_load_error.deep_view(),
            line_char_budget as nat,
            elapsed_ms as nat,
        ),
        r.1 == animates(projects.deep_view()),
{
    let ghost all = projects.deep_view();
    let ghost act = active_view(*active_session);
    let ghost budget = line_char_budget as nat;
    let ghost ms = elapsed_ms as nat;
    assert(all.len() == projects@.len());
    let mut lines: Vec<SidebarLine> = Vec::new();
    add_line(&mut lines, SidebarLine::new("WORKSPACE", true).with_tone(SidebarLineTone::Info));
    add_line(&mut lines, SidebarLine::new("", false));
    add_line(
        &mut lines,
        SidebarLine::new("Projects", true).with_tone(SidebarLineTone::Info).with_trailing_button(
            "+",
            SidebarAction::CreateProject,
        ),
    );
    if projects.len() == 0 {
        add_line(
            &mut lines,
            SidebarLine::new("  (none)", false).with_tone(SidebarLineTone::Muted),
        );
    }
    let ghost heading = heading_lines(all.len() == 0);
    assert(lines.deep_view() =~= heading);
    let mut animating = false;
    let mut i: usize = 0;
    assert(heading + projects_lines(all.take(0), act, budget, ms) =~= heading);
    while i < projects.len()
        invariant
            i <= projects@.len(),
            all == projects.deep_view(),
            act == active_view(*active_session),
            budget == line_char_budget,
            ms == elapsed_ms,
            lines.deep_view() == heading + projects_lines(all.take(i as int), act, budget, ms),
            animating == animates(all.take(i as int)),
        decreases projects@.len() - i,
    {
        let ghost added = project_lines(all[i as int], act, budget, ms);
        proof {
            lemma_next_project(all, i as int, act, budget, ms);
            let shown = projects_lines(all.take(i as int), act, budget, ms);
            assert(heading + (shown + added) =~= (heading + shown) + added);
        }
        let loading = add_project_lines(
            &mut lines,
            &projects[i],
            active_session,
            line_char_budget,
            elapsed_ms,
        );
        if loading {
            animating = true;
        }
        i = i + 1;
    }
    assert(all.take(i as int) =~= all);
    add_resource_lines(&mut lines, resources, line_char_budget);
    add_line(&mut lines, SidebarLine::new("", false));
    let ghost so_far = lines.deep_view();
    match last_load_error {
        Some(error) => {
            add_line(&mut lines, SidebarLine::new("", false));
            add_line(&mut lines, SidebarLine::new("Load error", true));
            let text = joined("  ", truncate_middle(error.as_str(), line_char_budget).as_str());
            add_line(&mut lines, SidebarLine::new(text.as_str(), false));
        },
        None => {},
    }
    proof {
        assert(lines.deep_view() =~= so_far + error_lines(last_load_error.deep_view(), budget));
        assert(so_far =~= heading + projects_lines(all, act, budget, ms) + resource_lines(
            resources.deep_view(),
            budget,
        ) + seq![plain_line(""@, false)]);
    }
    (lines, animating)
}

// ---------------------------------------------------------------------------
// Laws
// ---------------------------------------------------------------------------

/// The line has no background, or it is the row of the active session.
pub open spec fn marks_only_active(line: LineView, active: Option<(Seq<char>, Seq<char>)>) -> bool {
    line.background is None || (active matches Some(pair) && line.action == Some(
        ActionView::ActivateSession { project_id: pair.0, session_id: pair.1 },
    ))
}

proof fn lemma_sessions_marked(
    project_id: Seq<char>,
    sessions: Seq<SessionView>,
    active: Option<(Seq<char>, Seq<char>)>,
    budget: nat,
    elapsed_ms: nat,
)
    ensures
        forall|i: int|
            0 <= i < sessions_lines(project_id, sessions, active, budget, elapsed_ms).len()
                ==> marks_only_active(
                #[trigger] sessions_lines(project_id, sessions, active, budget, elapsed_ms)[i],
                active,
            ),
        forall|k: int|
            0 <= k < sessions.len() ==> sessions_lines(
                project_id,
                sessions,
                active,
                budget,
                elapsed_ms,
            ).contains(
                session_row(
                    project_id,
                    #[trigger] sessions[k],
                    active == Some((project_id, sessions[k].id)),
                    budget,
                    elapsed_ms,
                ),
            ),
    decreases sessions.len(),
{
    if sessions.len() > 0 {
        let head = sessions.drop_last();
        lemma_sessions_marked(project_id, head, active, budget, elapsed_ms);
        let before = sessions_lines(project_id, head, active, budget, elapsed_ms);
        let added = session_lines(project_id, sessions.last(), active, budget, elapsed_ms);
        let all = sessions_lines(project_id, sessions, active, budget, elapsed_ms);
        assert(all == before + added);
        assert forall|i: int| 0 <= i < all.len() implies marks_only_active(
            #[trigger] all[i],
            active,
        ) by {
            if i < before.len() {
                assert(all[i] == before[i]);
            } else {
                assert(all[i] == added[i - before.len()]);
            }
        }
        assert forall|k: int| 0 <= k < sessions.len() implies all.contains(
            session_row(
                project_id,
                #[trigger] sessions[k],
                active == Some((project_id, sessions[k].id)),
                budget,
                elapsed_ms,
            ),
        ) by {
            let row = session_row(
                project_id,
                sessions[k],
                active == Some((project_id, sessions[k].id)),
                budget,
                elapsed_ms,
            );
            if k < head.len() {
                assert(head[k] == sessions[k]);
                let at = choose|at: int| 0 <= at < before.len() && before[at] == row;
                assert(all[at] == row);
            } else {
                assert(added[0] == row);
                assert(all[before.len() as int] == row);
            }
        }
    }
}

proof fn lemma_projects_marked(
    projects: Seq<ProjectView>,
    active: Option<(Seq<char>, Seq<char>)>,
    budget: nat,
    elapsed_ms: nat,
)
    ensures
        forall|i: int|
            0 <= i < projects_lines(projects, active, budget, elapsed_ms).len()
                ==> marks_only_active(
                #[trigger] projects_lines(projects, active, budget, elapsed_ms)[i],
                active,
            ),
    decreases projects.len(),
{
    if projects.len() > 0 {
        let head = projects.drop_last();
        let project = projects.last();
        lemma_projects_marked(head, active, budget, elapsed_ms);
        lemma_sessions_marked(
            project.id,
            listed(project.sessions),
            active,
            budget,
            elapsed_ms,
        );
        let before = projects_lines(head, active, budget, elapsed_ms);
        let added = project_lines(project, active, budget, elapsed_ms);
        let inner = sessions_lines(
            project.id,
            listed(project.sessions),
            active,
            budget,
            elapsed_ms,
        );
        let all = projects_lines(projects, active, budget, elapsed_ms);
        assert(all == before + added);
        assert forall|i: int| 0 <= i < added.len() implies marks_only_active(
            #[trigger] added[i],
            active,
        ) by {
            if project.sessions.len() > 0 && 1 <= i < 1 + inner.len() {
                assert(added[i] == inner[i - 1]);
            }
        }
        assert forall|i: int| 0 <= i < all.len() implies marks_only_active(
            #[trigger] all[i],
            active,
        ) by {
            if i < before.len() {
                assert(all[i] == before[i]);
            } else {
                assert(all[i] == added[i - before.len()]);
            }
        }
    }
}

/// The row of an idle session shows whether it is pinned, and no status.
pub proof fn law_idle_shows_the_pin_only(
    project_id: Seq<char>,
    session: SessionView,
    current: bool,
    budget: nat,
    elapsed_ms: nat,
)
    requires
        SidebarSessionStatus::shown(session.status) is Idle,
    ensures
        begins(
            session_row(project_id, session, current, budget, elapsed_ms).text,
            if session.pinned {
                "  [📌] "@
            } else {
                "  [·] "@
            },
        ),
{
    reveal_strlit("  ");
    reveal_strlit("[");
    reveal_strlit("📌");
    reveal_strlit("·");
    reveal_strlit("]");
    reveal_strlit(" ");
    reveal_strlit("  [📌] ");
    reveal_strlit("  [·] ");
    let chip = status_chip(session, elapsed_ms);
    let title = shortened(session.title, title_budget(budget, chip));
    let mark = if session.pinned {
        "  [📌] "@
    } else {
        "  [·] "@
    };
    assert("  "@ + chip + " "@ =~= mark);
    assert((mark + title).take(mark.len() as int) =~= mark);
}

/// Only the row of the active session is set off from the others.
pub proof fn law_only_active_is_marked(
    projects: Seq<ProjectView>,
    active: Option<(Seq<char>, Seq<char>)>,
    section: Option<ResourceView>,
    error: Option<Seq<char>>,
    budget: nat,
    elapsed_ms: nat,
    i: int,
)
    requires
        0 <= i < sidebar_lines(projects, active, section, error, budget, elapsed_ms).len(),
    ensures
        marks_only_active(
            sidebar_lines(projects, active, section, error, budget, elapsed_ms)[i],
            active,
        ),
{
    lemma_projects_marked(projects, active, budget, elapsed_ms);
    let heading = heading_lines(projects.len() == 0);
    let middle = projects_lines(projects, active, budget, elapsed_ms);
    let resources = resource_lines(section, budget);
    let all = sidebar_lines(projects, active, section, error, budget, elapsed_ms);
    let from = heading.len() + middle.len();
    if i < heading.len() {
        assert(all[i] == heading[i]);
    } else if i < from {
        assert(all[i] == middle[i - heading.len()]);
    } else if i < from + resources.len() {
        assert(all[i] == resources[i - from]);
        if section is Some {
            let rows = snippets_lines(section->0, budget);
            if 1 <= i - from < 1 + rows.len() {
                assert(resources[i - from] == rows[i - from - 1]);
            }
        }
    } else if i == from + resources.len() {
        assert(all[i] == plain_line(""@, false));
    } else {
        assert(all[i] == error_lines(error, budget)[i - from - resources.len() - 1]);
    }
}

/// Every listed session of a project has its row among the project's lines.
pub proof fn law_listed_sessions_have_rows(
    project: ProjectView,
    active: Option<(Seq<char>, Seq<char>)>,
    budget: nat,
    elapsed_ms: nat,
    k: int,
)
    requires
        0 <= k < project.sessions.len(),
        k < LISTED,
    ensures
        project_lines(project, active, budget, elapsed_ms).contains(
            session_row(
                project.id,
                project.sessions[k],
                active == Some((project.id, project.sessions[k].id)),
                budget,
                elapsed_ms,
            ),
        ),
{
    let shown = listed(project.sessions);
    lemma_sessions_marked(project.id, shown, active, budget, elapsed_ms);
    assert(shown[k] == project.sessions[k]);
    let inner = sessions_lines(project.id, shown, active, budget, elapsed_ms);
    let row = session_row(
        project.id,
        shown[k],
        active == Some((project.id, shown[k].id)),
        budget,
        elapsed_ms,
    );
    let at = choose|at: int| 0 <= at < inner.len() && inner[at] == row;
    assert(project_lines(project, active, budget, elapsed_ms)[at + 1] == row);
}

} // verus!
