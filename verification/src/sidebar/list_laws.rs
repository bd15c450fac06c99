//! What holds of the stored sessions, projects and snippets as they are made, repaired and listed.
use vstd::prelude::*;

use crate::agent_status::manager::SnapshotView;
use crate::order::{law_sorted_is_ordered, sorted, text_before};
use crate::paths::{components_of, file_name_of};
use crate::sidebar::labels::snippet_name;
use crate::sidebar::model::{
    ProjectEntryView, SessionEntryView, SnippetEntry, SnippetEntryView, WorkspaceSidebarProject,
    WorkspaceSidebarSession,
};
use crate::sidebar::snippets::{listed_snippets, new_snippet, snippet_missing};
use crate::sidebar::status::{normal_status, out_of_date, Timestamp};
use crate::sidebar::store::{
    all_repaired, has_root, latest_stored, lemma_root_place, listed_sessions, new_project,
    new_session, next_title, numbered_title, project_missing, repaired, root_place,
    session_missing, short_name, shown_project, shown_projects, shown_session, to_write,
    with_snapshot,
};
use crate::text::lowered;

verus! {

/// A new session has the id, the title and the time that it was made with, is idle, not pinned and
/// bound to no thread, and its status is a guess of low confidence without a reason.
pub proof fn law_new_session(id: Seq<char>, title: Seq<char>, now: Seq<char>)
    ensures
        ({
            let session = new_session(id, title, now);
            &&& session.id == id
            &&& session.title == title
            &&& session.updated_at == now
            &&& session.status == "idle"@
            &&& session.status_source == "heuristic"@
            &&& session.status_confidence == "low"@
            &&& session.status_reason.len() == 0
            &&& session.codex_thread_id.len() == 0
            &&& !session.pinned
        }),
{
}

/// A new project has the id, the name and the root that it was made with, and its time as both the
/// time of its making and that of its last activity; a new snippet has its id, its content and its
/// time, and is named after its content.
pub proof fn law_new_project_and_snippet(
    id: Seq<char>,
    name: Seq<char>,
    root: Seq<char>,
    content: Seq<char>,
    now: Seq<char>,
)
    ensures
        ({
            let project = new_project(id, name, root, now);
            &&& project.id == id
            &&& project.name == name
            &&& project.root_path == root
            &&& project.created_at == now
            &&& project.last_active_at == now
        }),
        ({
            let snippet = new_snippet(id, content, now);
            &&& snippet.id == id
            &&& snippet.content == content
            &&& snippet.updated_at == now
            &&& snippet.name == snippet_name(content)
        }),
{
}

/// A status that is written is stored under its name, with its source, its confidence and its reason,
/// or an empty reason where it has none; of the rest of the session only the time changes.
pub proof fn law_written_status(session: SessionEntryView, snapshot: SnapshotView, now: Seq<char>)
    ensures
        ({
            let after = with_snapshot(session, snapshot, now);
            &&& after.status == snapshot.status.storage_text()
            &&& after.status_source == snapshot.source.storage_text()
            &&& after.status_confidence == snapshot.confidence.storage_text()
            &&& snapshot.reason matches Some(reason) ==> after.status_reason == reason
            &&& snapshot.reason is None ==> after.status_reason.len() == 0
            &&& after.updated_at == now
            &&& after.id == session.id
            &&& after.title == session.title
            &&& after.pinned == session.pinned
            &&& after.codex_thread_id == session.codex_thread_id
        }),
{
}

/// The number of the next title is counted on from the number of sessions, past the titles that are
/// taken: the title is new, and the first session is the first by its title.
pub proof fn law_next_titles(titles: Seq<Seq<char>>, title: Seq<char>, n: nat)
    requires
        next_title(titles, title, n),
    ensures
        !titles.contains(title),
        title == "session-"@ + crate::numbers::decimal_of(n),
        n > titles.len(),
        titles.len() == 0 ==> title == "session-"@ + crate::numbers::decimal_of(1),
        !titles.contains(numbered_title(titles.len() + 1)) ==> n == titles.len() + 1,
{
    if n > titles.len() + 1 {
        assert(titles.contains(numbered_title((titles.len() + 1) as nat)));
    }
}

/// Of stored sessions the one with the latest time is taken, and of several the last of them.
pub proof fn law_latest_stored(sessions: Seq<SessionEntryView>)
    ensures
        latest_stored(sessions) is Some <==> sessions.len() > 0,
        latest_stored(sessions) matches Some(best) ==> exists|k: int|
            {
                &&& 0 <= k < sessions.len()
                &&& #[trigger] sessions[k] == best
                &&& forall|i: int|
                    0 <= i < sessions.len() ==> !text_before(
                        best.updated_at,
                        (#[trigger] sessions[i]).updated_at,
                    )
                &&& forall|i: int|
                    k < i < sessions.len() ==> text_before(
                        (#[trigger] sessions[i]).updated_at,
                        best.updated_at,
                    )
            },
    decreases sessions.len(),
{
    if sessions.len() > 0 {
        let head = sessions.drop_last();
        law_latest_stored(head);
        let best = latest_stored(head);
        let last = sessions.last();
        assert(sessions[sessions.len() - 1] == last);
        if best is Some {
            let k = choose|k: int|
                {
                    &&& 0 <= k < head.len()
                    &&& #[trigger] head[k] == best->0
                    &&& forall|i: int|
                        0 <= i < head.len() ==> !text_before(
                            best->0.updated_at,
                            (#[trigger] head[i]).updated_at,
                        )
                    &&& forall|i: int|
                        k < i < head.len() ==> text_before(
                            (#[trigger] head[i]).updated_at,
                            best->0.updated_at,
                        )
                };
            assert(sessions[k] == head[k]);
            crate::order::law_text_order_total(last.updated_at, best->0.updated_at);
            crate::order::law_text_order_total(last.updated_at, last.updated_at);
            if text_before(last.updated_at, best->0.updated_at) {
                assert forall|i: int| 0 <= i < sessions.len() implies !text_before(
                    best->0.updated_at,
                    (#[trigger] sessions[i]).updated_at,
                ) by {
                    if i < head.len() {
                        assert(head[i] == sessions[i]);
                    }
                }
                assert forall|i: int| k < i < sessions.len() implies text_before(
                    (#[trigger] sessions[i]).updated_at,
                    best->0.updated_at,
                ) by {
                    if i < head.len() {
                        assert(head[i] == sessions[i]);
                    }
                }
            } else {
                assert forall|i: int| 0 <= i < sessions.len() implies !text_before(
                    last.updated_at,
                    (#[trigger] sessions[i]).updated_at,
                ) by {
                    if i < head.len() {
                        assert(head[i] == sessions[i]);
                        if text_before(last.updated_at, sessions[i].updated_at) {
                            if best->0.updated_at == last.updated_at {
                            } else {
                                crate::order::law_text_order_transitive(
                                    best->0.updated_at,
                                    last.updated_at,
                                    sessions[i].updated_at,
                                );
                            }
                        }
                    }
                }
            }
        } else {
            crate::order::law_text_order_total(last.updated_at, last.updated_at);
        }
    }
}

/// A session that lacks its status, its source or its confidence gets idle, structured and low; one
/// whose status is in order keeps it; and one whose status is out of date becomes idle, with no
/// reason left over.
pub proof fn law_repairs(session: SessionEntryView, now: Timestamp)
    ensures
        ({
            let after = repaired(session, now);
            &&& session.status.len() > 0 && session.status_source.len() > 0
                && session.status_confidence.len() > 0 && normal_status(
                session.status,
                session.updated_at,
                now,
            ) == session.status ==> after == session
            &&& out_of_date(session.status, session.updated_at, now) && session.status.len() > 0
                && session.status != "idle"@ ==> {
                &&& after.status == "idle"@
                &&& after.status_source == "structured"@
                &&& after.status_confidence == "low"@
                &&& after.status_reason.len() == 0
            }
            &&& session.status.len() == 0 && normal_status("idle"@, session.updated_at, now)
                == "idle"@ ==> after.status == "idle"@ && after.status_reason
                == session.status_reason
            &&& session.status.len() > 0 && session.status_source.len() > 0 && after.status
                == session.status ==> after.status_source == session.status_source
        }),
{
}

/// What is shown of a stored session is what is stored of it, and of a project likewise, with its
/// sessions listed.
pub proof fn law_shown_fields(
    session: SessionEntryView,
    project: ProjectEntryView,
    sessions: Seq<SessionEntryView>,
    now: Timestamp,
)
    ensures
        ({
            let shown = shown_session(session);
            &&& shown.id == session.id
            &&& shown.title == session.title
            &&& shown.status == session.status
            &&& shown.status_source == session.status_source
            &&& shown.status_confidence == session.status_confidence
            &&& shown.status_reason == session.status_reason
            &&& shown.pinned == session.pinned
            &&& shown.updated_at == session.updated_at
        }),
        ({
            let shown = shown_project(project, Some(sessions), now);
            &&& shown.id == project.id
            &&& shown.name == project.name
            &&& shown.root_path == project.root_path
            &&& shown.sessions.len() == sessions.len()
        }),
        shown_project(project, None, now).sessions.len() == 0,
        shown_project(project, None, now).id == project.id,
{
    let repaired_ones = all_repaired(sessions, now);
    law_sorted_is_ordered::<WorkspaceSidebarSession>(
        repaired_ones.map_values(|session: SessionEntryView| shown_session(session)),
        true,
    );
}

/// Sessions are listed from the one that changed last to the one that changed first, and snippets
/// likewise.
pub proof fn law_listed_newest_first(
    sessions: Seq<SessionEntryView>,
    snippets: Seq<SnippetEntryView>,
    i: int,
    j: int,
)
    ensures
        0 <= i < j < listed_sessions(sessions).len() ==> !text_before(
            listed_sessions(sessions)[i].updated_at,
            listed_sessions(sessions)[j].updated_at,
        ),
        0 <= i < j < listed_snippets(snippets).len() ==> !text_before(
            listed_snippets(snippets)[i].updated_at,
            listed_snippets(snippets)[j].updated_at,
        ),
{
    law_sorted_is_ordered::<WorkspaceSidebarSession>(
        sessions.map_values(|session: SessionEntryView| shown_session(session)),
        true,
    );
    law_sorted_is_ordered::<SnippetEntry>(
        crate::sidebar::snippets::with_ids(snippets),
        true,
    );
}

/// Projects are shown by name, in the order of the alphabet, whatever the case of their letters;
/// each of them once.
pub proof fn law_projects_by_name(
    projects: Seq<ProjectEntryView>,
    sessions: Seq<Option<Seq<SessionEntryView>>>,
    now: Timestamp,
    i: int,
    j: int,
)
    ensures
        ({
            let shown = sorted::<WorkspaceSidebarProject>(
                shown_projects(projects, sessions, now),
                false,
            );
            &&& shown.len() == projects.len()
            &&& 0 <= i < j < shown.len() ==> !text_before(
                lowered(shown[j].name),
                lowered(shown[i].name),
            )
        }),
{
    law_sorted_is_ordered::<WorkspaceSidebarProject>(
        shown_projects(projects, sessions, now),
        false,
    );
}

/// The sessions of a project are written back exactly where the repair changed them.
pub proof fn law_changed_files_are_written(
    sessions: Seq<Option<Seq<SessionEntryView>>>,
    now: Timestamp,
    k: int,
)
    ensures
        to_write(sessions, now).contains(k) <==> 0 <= k < sessions.len() && sessions[k] is Some
            && all_repaired(sessions[k]->0, now) != sessions[k]->0,
    decreases sessions.len(),
{
    let all = to_write(sessions, now);
    if sessions.len() > 0 {
        let head = sessions.drop_last();
        let before = to_write(head, now);
        law_changed_files_are_written(head, now, k);
        let last = (sessions.len() - 1) as int;
        assert(sessions[last] == sessions.last());
        assert(0 <= k < head.len() ==> head[k] == sessions[k]);
        if all.contains(k) && !before.contains(k) {
            let at = choose|at: int| 0 <= at < all.len() && all[at] == k;
            if at < before.len() {
                assert(before[at] == k);
            }
        }
        if before.contains(k) {
            let at = choose|at: int| 0 <= at < before.len() && before[at] == k;
            assert(all[at] == k);
        }
        if k == last && sessions[k] is Some && all_repaired(sessions[k]->0, now) != sessions[k]->0 {
            assert(all[before.len() as int] == k);
        }
    }
}

/// A root is found where a project has it, at the first such project.
pub proof fn law_roots_are_found(projects: Seq<ProjectEntryView>, root: Seq<char>, k: int)
    requires
        0 <= k < projects.len(),
        projects[k].root_path == root,
    ensures
        has_root(projects, root),
        root_place(projects, root) <= k,
        projects[root_place(projects, root)].root_path == root,
{
    lemma_root_place(projects, root);
}

/// The short name of a path is its last component, or the path itself where that names nothing.
pub proof fn law_short_names(path: Seq<char>)
    ensures
        file_name_of(path) matches Some(name) ==> short_name(path) == name && name
            == components_of(path).last(),
        file_name_of(path) is None ==> short_name(path) == path,
{
}

/// A root that no project has is not found.
pub proof fn law_missing_roots(projects: Seq<ProjectEntryView>, root: Seq<char>)
    requires
        forall|i: int| 0 <= i < projects.len() ==> (#[trigger] projects[i]).root_path != root,
    ensures
        !has_root(projects, root),
{
    lemma_root_place(projects, root);
}

/// What is said of a session, a project or a snippet that is not stored names it.
pub proof fn law_missing_messages(id: Seq<char>)
    ensures
        session_missing(id) == "session not found in storage: "@ + id,
        project_missing(id) == "project not found in storage: "@ + id,
        snippet_missing(id) == "snippet not found in storage: "@ + id,
{
}

} // verus!
