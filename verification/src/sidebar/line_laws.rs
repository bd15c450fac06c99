//! What holds of the sidebar's lines: what each of them does when it is chosen.
use vstd::prelude::*;

use crate::sidebar::action::ActionView;
use crate::sidebar::labels::shortened;
use crate::sidebar::lines::{
    error_lines, heading_lines, law_listed_sessions_have_rows, listed, plain_line, project_lines,
    projects_lines, resource_lines, session_lines, session_note, session_row, sessions_lines,
    sidebar_lines, snippet_row, snippets_lines, status_chip, title_budget, ButtonView, LineView, ResourceView, SidebarLineBackground,
};
use crate::sidebar::model::{ProjectView, SessionView, SnippetEntryView};
use crate::sidebar::status::{
    confidence_of, signal_tag, source_of, spinner_frame, SidebarSessionStatus,
};
use crate::text::{begins, contains, occurs_at, trimmed};
use crate::text_laws::law_parts_are_found;

verus! {

/// The action deletes or closes something.
pub open spec fn removes(action: ActionView) -> bool {
    ||| action is DeleteSession
    ||| action is DeleteProject
    ||| action is DeleteSnippet
    ||| action is CloseOthers
    ||| action is CloseAll
}

/// Neither choosing the line nor pressing one of its buttons deletes, closes, renames, pins or edits
/// anything: a line shows a project, a session or a snippet to use, and its buttons make something
/// new or open a menu.
pub open spec fn harmless(line: LineView) -> bool {
    &&& line.action matches Some(action) ==> !removes(action) && (action is ProjectRow
        || action is ActivateSession || action is InsertSnippet)
    &&& forall|i: int|
        0 <= i < line.trailing_buttons.len() ==> !removes(
            (#[trigger] line.trailing_buttons[i]).action,
        ) && (line.trailing_buttons[i].action is CreateProject
            || line.trailing_buttons[i].action is CreateSessionInProject
            || line.trailing_buttons[i].action is OpenProjectContextMenu
            || line.trailing_buttons[i].action is OpenSessionContextMenu
            || line.trailing_buttons[i].action is CreateSnippet
            || line.trailing_buttons[i].action is OpenSnippetContextMenu)
}

spec fn all_harmless(lines: Seq<LineView>) -> bool {
    forall|i: int| 0 <= i < lines.len() ==> harmless(#[trigger] lines[i])
}

proof fn lemma_joined_are_harmless(a: Seq<LineView>, b: Seq<LineView>)
    requires
        all_harmless(a),
        all_harmless(b),
    ensures
        all_harmless(a + b),
{
    assert forall|i: int| 0 <= i < (a + b).len() implies harmless(#[trigger] (a + b)[i]) by {
        if i < a.len() {
            assert((a + b)[i] == a[i]);
        } else {
            assert((a + b)[i] == b[i - a.len()]);
        }
    }
}

proof fn lemma_sessions_are_harmless(
    project_id: Seq<char>,
    sessions: Seq<SessionView>,
    active: Option<(Seq<char>, Seq<char>)>,
    budget: nat,
    elapsed_ms: nat,
)
    ensures
        all_harmless(sessions_lines(project_id, sessions, active, budget, elapsed_ms)),
    decreases sessions.len(),
{
    if sessions.len() > 0 {
        lemma_sessions_are_harmless(
            project_id,
            sessions.drop_last(),
            active,
            budget,
            elapsed_ms,
        );
        lemma_joined_are_harmless(
            sessions_lines(project_id, sessions.drop_last(), active, budget, elapsed_ms),
            session_lines(project_id, sessions.last(), active, budget, elapsed_ms),
        );
    }
}

proof fn lemma_projects_are_harmless(
    projects: Seq<ProjectView>,
    active: Option<(Seq<char>, Seq<char>)>,
    budget: nat,
    elapsed_ms: nat,
)
    ensures
        all_harmless(projects_lines(projects, active, budget, elapsed_ms)),
    decreases projects.len(),
{
    if projects.len() > 0 {
        let project = projects.last();
        lemma_projects_are_harmless(projects.drop_last(), active, budget, elapsed_ms);
        lemma_sessions_are_harmless(
            project.id,
            listed(project.sessions),
            active,
            budget,
            elapsed_ms,
        );
        let lines = project_lines(project, active, budget, elapsed_ms);
        let inner = sessions_lines(
            project.id,
            listed(project.sessions),
            active,
            budget,
            elapsed_ms,
        );
        assert forall|i: int| 0 <= i < lines.len() implies harmless(#[trigger] lines[i]) by {
            if project.sessions.len() > 0 && 1 <= i < 1 + inner.len() {
                assert(lines[i] == inner[i - 1]);
            }
        }
        lemma_joined_are_harmless(
            projects_lines(projects.drop_last(), active, budget, elapsed_ms),
            lines,
        );
    }
}

/// No line of the sidebar deletes, closes, renames, pins or edits anything, neither when it is
/// chosen nor by one of its buttons.
pub proof fn law_lines_are_harmless(
    projects: Seq<ProjectView>,
    active: Option<(Seq<char>, Seq<char>)>,
    section: Option<ResourceView>,
    error: Option<Seq<char>>,
    budget: nat,
    elapsed_ms: nat,
    i: int,
)
    requires
        0 <= i < sidebar_lines(projects, active, section, error, budget, elapsed_ms).len(),
    ensures
        harmless(sidebar_lines(projects, active, section, error, budget, elapsed_ms)[i]),
{
    let heading = heading_lines(projects.len() == 0);
    let middle = projects_lines(projects, active, budget, elapsed_ms);
    let resources = resource_lines(section, budget);
    let blank = seq![plain_line(""@, false)];
    lemma_projects_are_harmless(projects, active, budget, elapsed_ms);
    lemma_joined_are_harmless(heading, middle);
    assert forall|j: int| 0 <= j < resources.len() implies harmless(#[trigger] resources[j]) by {
        if section is Some {
            let rows = snippets_lines(section->0, budget);
            if 1 <= j < 1 + rows.len() {
                assert(resources[j] == rows[j - 1]);
            }
        }
    }
    lemma_joined_are_harmless(heading + middle, resources);
    lemma_joined_are_harmless(heading + middle + resources, blank);
    lemma_joined_are_harmless(heading + middle + resources + blank, error_lines(error, budget));
}

/// Some line of the sidebar is this one.
spec fn lists(
    projects: Seq<ProjectView>,
    active: Option<(Seq<char>, Seq<char>)>,
    section: Option<ResourceView>,
    error: Option<Seq<char>>,
    budget: nat,
    elapsed_ms: nat,
    line: LineView,
) -> bool {
    sidebar_lines(projects, active, section, error, budget, elapsed_ms).contains(line)
}

proof fn lemma_resources_are_listed(
    projects: Seq<ProjectView>,
    active: Option<(Seq<char>, Seq<char>)>,
    section: Option<ResourceView>,
    error: Option<Seq<char>>,
    budget: nat,
    elapsed_ms: nat,
    j: int,
)
    requires
        0 <= j < resource_lines(section, budget).len(),
    ensures
        lists(
            projects,
            active,
            section,
            error,
            budget,
            elapsed_ms,
            resource_lines(section, budget)[j],
        ),
{
    let before = heading_lines(projects.len() == 0) + projects_lines(
        projects,
        active,
        budget,
        elapsed_ms,
    );
    assert(sidebar_lines(projects, active, section, error, budget, elapsed_ms)[before.len() + j]
        == resource_lines(section, budget)[j]);
}

proof fn lemma_project_is_listed(
    projects: Seq<ProjectView>,
    active: Option<(Seq<char>, Seq<char>)>,
    budget: nat,
    elapsed_ms: nat,
    p: int,
    line: LineView,
)
    requires
        0 <= p < projects.len(),
        project_lines(projects[p], active, budget, elapsed_ms).contains(line),
    ensures
        projects_lines(projects, active, budget, elapsed_ms).contains(line),
    decreases projects.len(),
{
    let head = projects_lines(projects.drop_last(), active, budget, elapsed_ms);
    let last = project_lines(projects.last(), active, budget, elapsed_ms);
    let all = projects_lines(projects, active, budget, elapsed_ms);
    assert(all == head + last);
    if p == projects.len() - 1 {
        let at = choose|at: int| 0 <= at < last.len() && last[at] == line;
        assert(all[head.len() + at] == line);
    } else {
        assert(projects.drop_last()[p] == projects[p]);
        lemma_project_is_listed(projects.drop_last(), active, budget, elapsed_ms, p, line);
        let at = choose|at: int| 0 <= at < head.len() && head[at] == line;
        assert(all[at] == line);
    }
}

proof fn lemma_project_is_in_sidebar(
    projects: Seq<ProjectView>,
    active: Option<(Seq<char>, Seq<char>)>,
    section: Option<ResourceView>,
    error: Option<Seq<char>>,
    budget: nat,
    elapsed_ms: nat,
    p: int,
    line: LineView,
)
    requires
        0 <= p < projects.len(),
        project_lines(projects[p], active, budget, elapsed_ms).contains(line),
    ensures
        lists(projects, active, section, error, budget, elapsed_ms, line),
{
    lemma_project_is_listed(projects, active, budget, elapsed_ms, p, line);
    let heading = heading_lines(projects.len() == 0);
    let middle = projects_lines(projects, active, budget, elapsed_ms);
    let at = choose|at: int| 0 <= at < middle.len() && middle[at] == line;
    assert(sidebar_lines(projects, active, section, error, budget, elapsed_ms)[heading.len() + at]
        == line);
}

/// Each of the first eight snippets of the shown section has a line in the sidebar that inserts
/// exactly this snippet of the section's project when it is chosen, and whose one button opens the
/// menu of the same snippet.
pub proof fn law_snippets_can_be_inserted(
    projects: Seq<ProjectView>,
    active: Option<(Seq<char>, Seq<char>)>,
    shown: ResourceView,
    error: Option<Seq<char>>,
    budget: nat,
    elapsed_ms: nat,
    k: int,
)
    requires
        shown.snippets is Ok,
        0 <= k < shown.snippets->Ok_0.len(),
        k < 8,
    ensures
        ({
            let lines = sidebar_lines(
                projects,
                active,
                Some(shown),
                error,
                budget,
                elapsed_ms,
            );
            let snippet = shown.snippets->Ok_0[k];
            exists|i: int|
                {
                    &&& 0 <= i < lines.len()
                    &&& (#[trigger] lines[i]).action == Some(
                        ActionView::InsertSnippet {
                            project_id: shown.project_id,
                            snippet_id: snippet.id,
                        },
                    )
                    &&& lines[i].trailing_buttons.len() == 1
                    &&& lines[i].trailing_buttons[0].action == (ActionView::OpenSnippetContextMenu {
                        project_id: shown.project_id,
                        snippet_id: snippet.id,
                    })
                    &&& !lines[i].is_header
                }
        }),
{
    let rows = snippets_lines(shown, budget);
    let resources = resource_lines(Some(shown), budget);
    let snippets = shown.snippets->Ok_0;
    assert(listed(snippets)[k] == snippets[k]);
    assert(resources[2 + k] == rows[1 + k]);
    lemma_resources_are_listed(
        projects,
        active,
        Some(shown),
        error,
        budget,
        elapsed_ms,
        2 + k,
    );
    let lines = sidebar_lines(projects, active, Some(shown), error, budget, elapsed_ms);
    let i = choose|i: int| 0 <= i < lines.len() && lines[i] == resources[2 + k];
    assert(lines[i].trailing_buttons.len() == 1);
}

/// Each of the first eight sessions of a project has a line in the sidebar that activates exactly
/// this session of this project when it is chosen, whose one button opens the menu of the same
/// session, and which is set off exactly where the session is the active one.
pub proof fn law_sessions_can_be_activated(
    projects: Seq<ProjectView>,
    active: Option<(Seq<char>, Seq<char>)>,
    section: Option<ResourceView>,
    error: Option<Seq<char>>,
    budget: nat,
    elapsed_ms: nat,
    p: int,
    k: int,
)
    requires
        0 <= p < projects.len(),
        0 <= k < projects[p].sessions.len(),
        k < 8,
    ensures
        ({
            let lines = sidebar_lines(projects, active, section, error, budget, elapsed_ms);
            let project_id = projects[p].id;
            let session_id = projects[p].sessions[k].id;
            exists|i: int|
                {
                    &&& 0 <= i < lines.len()
                    &&& (#[trigger] lines[i]).action == Some(
                        ActionView::ActivateSession { project_id, session_id },
                    )
                    &&& lines[i].trailing_buttons.len() == 1
                    &&& lines[i].trailing_buttons[0].action == (ActionView::OpenSessionContextMenu {
                        project_id,
                        session_id,
                    })
                    &&& lines[i].background == if active == Some((project_id, session_id)) {
                        Some(SidebarLineBackground::CurrentSession)
                    } else {
                        None
                    }
                }
        }),
{
    let project = projects[p];
    let session = project.sessions[k];
    law_listed_sessions_have_rows(project, active, budget, elapsed_ms, k);
    let row = session_row(
        project.id,
        session,
        active == Some((project.id, session.id)),
        budget,
        elapsed_ms,
    );
    lemma_project_is_in_sidebar(
        projects,
        active,
        section,
        error,
        budget,
        elapsed_ms,
        p,
        row,
    );
    let lines = sidebar_lines(projects, active, section, error, budget, elapsed_ms);
    let i = choose|i: int| 0 <= i < lines.len() && lines[i] == row;
    assert(lines[i].trailing_buttons.len() == 1);
}

/// Every project has a line in the sidebar that names it and stands for this project when it is
/// chosen, with one button that makes a session in it and one that opens its menu.
pub proof fn law_projects_have_rows(
    projects: Seq<ProjectView>,
    active: Option<(Seq<char>, Seq<char>)>,
    section: Option<ResourceView>,
    error: Option<Seq<char>>,
    budget: nat,
    elapsed_ms: nat,
    p: int,
)
    requires
        0 <= p < projects.len(),
    ensures
        ({
            let lines = sidebar_lines(projects, active, section, error, budget, elapsed_ms);
            let project_id = projects[p].id;
            exists|i: int|
                {
                    &&& 0 <= i < lines.len()
                    &&& (#[trigger] lines[i]).action == Some(ActionView::ProjectRow { project_id })
                    &&& lines[i].text == "- "@ + shortened(projects[p].name, budget)
                    &&& lines[i].trailing_buttons == seq![
                        ButtonView {
                            label: "+"@,
                            action: ActionView::CreateSessionInProject { project_id },
                        },
                        ButtonView {
                            label: "⋯"@,
                            action: ActionView::OpenProjectContextMenu { project_id },
                        },
                    ]
                }
        }),
{
    let row = project_lines(projects[p], active, budget, elapsed_ms)[0];
    lemma_project_is_in_sidebar(
        projects,
        active,
        section,
        error,
        budget,
        elapsed_ms,
        p,
        row,
    );
    let lines = sidebar_lines(projects, active, section, error, budget, elapsed_ms);
    let i = choose|i: int| 0 <= i < lines.len() && lines[i] == row;
    let project_id = projects[p].id;
    assert(lines[i].trailing_buttons =~= seq![
        ButtonView { label: "+"@, action: ActionView::CreateSessionInProject { project_id } },
        ButtonView { label: "⋯"@, action: ActionView::OpenProjectContextMenu { project_id } },
    ]);
}

proof fn lemma_only_listed(
    project_id: Seq<char>,
    sessions: Seq<SessionView>,
    active: Option<(Seq<char>, Seq<char>)>,
    budget: nat,
    elapsed_ms: nat,
    i: int,
)
    requires
        0 <= i < sessions_lines(project_id, sessions, active, budget, elapsed_ms).len(),
    ensures
        sessions_lines(project_id, sessions, active, budget, elapsed_ms)[i].action matches Some(
            action,
        ) ==> exists|k: int|
            0 <= k < sessions.len() && action == (ActionView::ActivateSession {
                project_id,
                session_id: (#[trigger] sessions[k]).id,
            }),
    decreases sessions.len(),
{
    if sessions.len() > 0 {
        let head = sessions.drop_last();
        let before = sessions_lines(project_id, head, active, budget, elapsed_ms);
        let added = session_lines(project_id, sessions.last(), active, budget, elapsed_ms);
        let all = sessions_lines(project_id, sessions, active, budget, elapsed_ms);
        assert(all == before + added);
        if i < before.len() {
            lemma_only_listed(project_id, head, active, budget, elapsed_ms, i);
            assert(all[i] == before[i]);
            if all[i].action is Some {
                let k = choose|k: int|
                    0 <= k < head.len() && before[i].action->0 == (ActionView::ActivateSession {
                        project_id,
                        session_id: (#[trigger] head[k]).id,
                    });
                assert(sessions[k] == head[k]);
            }
        } else {
            assert(all[i] == added[i - before.len()]);
            assert(sessions[sessions.len() - 1] == sessions.last());
        }
    }
}

/// The lines of a project do nothing but stand for the project or activate one of its first eight
/// sessions.
pub proof fn law_project_lines_stay_within(
    project: ProjectView,
    active: Option<(Seq<char>, Seq<char>)>,
    budget: nat,
    elapsed_ms: nat,
    i: int,
)
    requires
        0 <= i < project_lines(project, active, budget, elapsed_ms).len(),
    ensures
        project_lines(project, active, budget, elapsed_ms)[i].action matches Some(action)
            ==> action == (ActionView::ProjectRow { project_id: project.id }) || exists|k: int|
            0 <= k < project.sessions.len() && k < 8 && action == (ActionView::ActivateSession {
                project_id: project.id,
                session_id: (#[trigger] project.sessions[k]).id,
            }),
{
    let lines = project_lines(project, active, budget, elapsed_ms);
    let shown = listed(project.sessions);
    let inner = sessions_lines(project.id, shown, active, budget, elapsed_ms);
    if project.sessions.len() > 0 && 1 <= i < 1 + inner.len() {
        assert(lines[i] == inner[i - 1]);
        lemma_only_listed(project.id, shown, active, budget, elapsed_ms, i - 1);
        if lines[i].action is Some {
            let k = choose|k: int|
                0 <= k < shown.len() && inner[i - 1].action->0 == (ActionView::ActivateSession {
                    project_id: project.id,
                    session_id: (#[trigger] shown[k]).id,
                });
            assert(project.sessions[k] == shown[k]);
        }
    }
}

/// The sidebar always offers to make a project, and a snippet of the shown project.
pub proof fn law_sidebar_offers_new(
    projects: Seq<ProjectView>,
    active: Option<(Seq<char>, Seq<char>)>,
    section: Option<ResourceView>,
    error: Option<Seq<char>>,
    budget: nat,
    elapsed_ms: nat,
)
    ensures
        ({
            let lines = sidebar_lines(projects, active, section, error, budget, elapsed_ms);
            exists|i: int|
                {
                    &&& 0 <= i < lines.len()
                    &&& (#[trigger] lines[i]).is_header
                    &&& lines[i].trailing_buttons.len() == 1
                    &&& lines[i].trailing_buttons[0].action == ActionView::CreateProject
                }
        }),
        section matches Some(shown) ==> ({
            let lines = sidebar_lines(projects, active, section, error, budget, elapsed_ms);
            exists|i: int|
                {
                    &&& 0 <= i < lines.len()
                    &&& (#[trigger] lines[i]).is_header
                    &&& lines[i].trailing_buttons.len() == 1
                    &&& lines[i].trailing_buttons[0].action == (ActionView::CreateSnippet {
                        project_id: shown.project_id,
                    })
                    &&& contains(lines[i].text, shown.project_label)
                }
        }),
{
    let lines = sidebar_lines(projects, active, section, error, budget, elapsed_ms);
    let heading = heading_lines(projects.len() == 0);
    assert(lines[2] == heading[2]);
    assert(lines[2].trailing_buttons.len() == 1);
    if section is Some {
        let shown = section->0;
        lemma_resources_are_listed(projects, active, section, error, budget, elapsed_ms, 0);
        let header = resource_lines(section, budget)[0];
        let i = choose|i: int| 0 <= i < lines.len() && lines[i] == header;
        let at = "Resources ("@.len() as int;
        assert(header.text.subrange(at, at + shown.project_label.len()) =~= shown.project_label);
        assert(occurs_at(header.text, shown.project_label, at));
        assert(lines[i].trailing_buttons.len() == 1);
    }
}

/// A failure to load is shown in the sidebar, and nothing is called an error without one.
pub proof fn law_load_errors_are_shown(
    projects: Seq<ProjectView>,
    active: Option<(Seq<char>, Seq<char>)>,
    section: Option<ResourceView>,
    message: Seq<char>,
    budget: nat,
    elapsed_ms: nat,
)
    ensures
        ({
            let lines = sidebar_lines(
                projects,
                active,
                section,
                Some(message),
                budget,
                elapsed_ms,
            );
            let without = sidebar_lines(projects, active, section, None, budget, elapsed_ms);
            &&& lines.len() == without.len() + 3
            &&& lines.take(without.len() as int) == without
            &&& lines.last().text == "  "@ + shortened(message, budget)
            &&& lines[lines.len() - 2].is_header
        }),
{
    let lines = sidebar_lines(projects, active, section, Some(message), budget, elapsed_ms);
    let without = sidebar_lines(projects, active, section, None, budget, elapsed_ms);
    assert(lines.take(without.len() as int) =~= without);
}

/// A session that waits for an approval says so in a warning right below its row, with the start of
/// the detail; no other session warns.
pub proof fn law_awaited_approvals_warn(
    project_id: Seq<char>,
    session: SessionView,
    active: Option<(Seq<char>, Seq<char>)>,
    budget: nat,
    elapsed_ms: nat,
)
    ensures
        ({
            let lines = session_lines(project_id, session, active, budget, elapsed_ms);
            let waits = SidebarSessionStatus::shown(session.status) is NeedApprove;
            &&& 1 <= lines.len() <= 2
            &&& waits ==> lines.len() == 2 && lines[1].tone is Warning && begins(
                lines[1].text,
                "      approval "@,
            )
            &&& !waits && lines.len() == 2 ==> lines[1].tone is Muted
            &&& lines.len() == 2 ==> lines[1].action is None && lines[1].trailing_buttons.len() == 0
        }),
{
    reveal_strlit("      ");
    reveal_strlit("approval maybe required [low confidence]");
    reveal_strlit("approval required");
    reveal_strlit("      approval ");
    let lines = session_lines(project_id, session, active, budget, elapsed_ms);
    if SidebarSessionStatus::shown(session.status) is NeedApprove {
        let text = lines[1].text;
        let head = "      approval "@;
        assert(lines[1] == session_note(session, budget)->0);
        assert(text.subrange(0, head.len() as int) =~= head);
    }
}

/// The row of a session shows its title, as far as there is room, behind the chip of its status, and
/// has the tone of its status.
pub proof fn law_session_rows_show(
    project_id: Seq<char>,
    session: SessionView,
    current: bool,
    budget: nat,
    elapsed_ms: nat,
)
    ensures
        ({
            let row = session_row(project_id, session, current, budget, elapsed_ms);
            let chip = status_chip(session, elapsed_ms);
            &&& row.tone == SidebarSessionStatus::shown(session.status).line_tone()
            &&& !row.is_header
            &&& row.text == "  "@ + chip + " "@ + shortened(
                session.title,
                if budget >= chip.len() + 16 {
                    (budget - chip.len() - 4) as nat
                } else {
                    12
                },
            )
            &&& session.title.len() <= 12 ==> contains(row.text, session.title)
        }),
{
    let chip = status_chip(session, elapsed_ms);
    let row = session_row(project_id, session, current, budget, elapsed_ms);
    let title = shortened(session.title, title_budget(budget, chip));
    law_parts_are_found("  "@ + chip + " "@, title, Seq::empty());
    assert(("  "@ + chip + " "@) + title + Seq::<char>::empty() =~= row.text);
}

/// The chip of a session begins with whether it is pinned. Unless the session is idle it goes on with
/// the badge of its status and the tag of its signal, and a sign turns in that of a loading one.
pub proof fn law_chips_show(session: SessionView, elapsed_ms: nat)
    ensures
        ({
            let status = SidebarSessionStatus::shown(session.status);
            let tag = signal_tag(
                source_of(session.status_source),
                confidence_of(session.status_confidence),
            );
            let opening = "["@ + if session.pinned {
                "📌"@
            } else {
                "·"@
            };
            let chip = status_chip(session, elapsed_ms);
            &&& status is Idle ==> chip == opening + "]"@
            &&& status is Loading ==> chip == opening + "|"@ + status.badge_text() + "|"@ + tag
                + "|"@ + seq![spinner_frame(elapsed_ms)] + "]"@
            &&& !(status is Idle) && !(status is Loading) ==> chip == opening + "|"@
                + status.badge_text() + "|"@ + tag + "]"@
        }),
{
}

/// The row of a snippet shows its name, as far as there is room; where the snippets could not be
/// loaded a warning shows why instead, and where there are none a muted line says so.
pub proof fn law_snippet_lines_show(shown: ResourceView, budget: nat, k: int)
    ensures
        ({
            let lines = snippets_lines(shown, budget);
            let room = if budget >= 8 {
                (budget - 8) as nat
            } else {
                0
            };
            &&& shown.snippets matches Ok(snippets) ==> {
                &&& snippets.len() == 0 ==> lines.len() == 1 && lines[0].text
                    == "  Snippets: (none)"@ && lines[0].tone is Muted
                &&& 0 < snippets.len() <= 8 ==> lines.len() == snippets.len() + 1
                &&& snippets.len() > 8 ==> lines.len() == 9
                &&& 0 <= k < snippets.len() && k < 8 ==> lines[k + 1].text == "    > "@ + shortened(
                    snippets[k].name,
                    room,
                )
            }
            &&& shown.snippets matches Err(message) ==> lines.len() == 1 && lines[0].tone is Warning
                && lines[0].text == "  Snippets load error: "@ + shortened(message, room)
        }),
{
    if shown.snippets is Ok {
        let snippets = shown.snippets->Ok_0;
        if 0 <= k < snippets.len() && k < 8 {
            assert(listed(snippets)[k] == snippets[k]);
        }
    }
}

/// A project without sessions says so, in a muted line below its row; where there are no projects
/// at all the sidebar says that.
pub proof fn law_absences_are_shown(
    project: ProjectView,
    active: Option<(Seq<char>, Seq<char>)>,
    budget: nat,
    elapsed_ms: nat,
)
    requires
        project.sessions.len() == 0,
    ensures
        project_lines(project, active, budget, elapsed_ms).len() == 3,
        project_lines(project, active, budget, elapsed_ms)[1].text == "    (no sessions)"@,
        project_lines(project, active, budget, elapsed_ms)[1].tone is Muted,
        heading_lines(true).len() == 4,
        heading_lines(true)[3].text == "  (none)"@,
        heading_lines(true)[3].tone is Muted,
        heading_lines(false).len() == 3,
        heading_lines(false)[2].text == "Projects"@,
{
}

/// The warning below a session that waits for an approval shows the start of its reason, or what to
/// do where it has none, and says so where the status is a guess of low confidence.
pub proof fn law_approval_warnings(session: SessionView, budget: nat)
    requires
        SidebarSessionStatus::shown(session.status) is NeedApprove,
    ensures
        ({
            let note = session_note(session, budget);
            let low = confidence_of(session.status_confidence) is Low;
            let head = if low {
                "      "@ + "approval maybe required [low confidence]"@
            } else {
                "      "@ + "approval required"@
            };
            let detail = trimmed(session.status_reason);
            &&& note is Some
            &&& detail.len() == 0 ==> note->0.text == head + ": review and choose allow/deny"@
            &&& 0 < detail.len() <= 20 ==> note->0.text == head + ": "@ + detail
            &&& detail.len() > 0 && budget >= 50 ==> note->0.text == head + ": "@ + shortened(
                detail,
                (budget - 30) as nat,
            )
        }),
{
}

/// Below a session that is under way by a guess of low confidence stands where the guess came from;
/// below any other that waits for no approval stands nothing.
pub proof fn law_guesses_are_noted(session: SessionView, budget: nat)
    requires
        !(SidebarSessionStatus::shown(session.status) is NeedApprove),
    ensures
        ({
            let status = SidebarSessionStatus::shown(session.status);
            let low = confidence_of(session.status_confidence) is Low;
            let note = session_note(session, budget);
            &&& low && (status is Loading || status is Running || status is Unknown) ==> note is Some
                && note->0.text == "      signal: "@ + source_of(
                session.status_source,
            ).storage_text() + " (low confidence)"@
            &&& !low ==> note is None
            &&& status is Idle || status is Done || status is Error ==> note is None
        }),
{
}

/// The buttons that open a menu are labelled with three dots, on the row of a session and on that of
/// a snippet.
pub proof fn law_menu_buttons_are_dots(
    project_id: Seq<char>,
    session: SessionView,
    current: bool,
    snippet: SnippetEntryView,
    budget: nat,
    elapsed_ms: nat,
)
    ensures
        session_row(project_id, session, current, budget, elapsed_ms).trailing_buttons == seq![
            ButtonView {
                label: "⋯"@,
                action: ActionView::OpenSessionContextMenu { project_id, session_id: session.id },
            },
        ],
        snippet_row(project_id, snippet, budget).trailing_buttons == seq![
            ButtonView {
                label: "⋯"@,
                action: ActionView::OpenSnippetContextMenu { project_id, snippet_id: snippet.id },
            },
        ],
{
    assert(session_row(project_id, session, current, budget, elapsed_ms).trailing_buttons =~= seq![
        ButtonView {
            label: "⋯"@,
            action: ActionView::OpenSessionContextMenu { project_id, session_id: session.id },
        },
    ]);
    assert(snippet_row(project_id, snippet, budget).trailing_buttons =~= seq![
        ButtonView {
            label: "⋯"@,
            action: ActionView::OpenSnippetContextMenu { project_id, snippet_id: snippet.id },
        },
    ]);
}

} // verus!
