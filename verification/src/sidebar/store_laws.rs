//! What every change of the stored files keeps.
use vstd::prelude::*;

use crate::agent_status::events::{
    law_confidence_reads_back, law_source_reads_back, law_status_reads_back, SessionStatus,
    SessionStatusConfidence, SessionStatusSource,
};
use crate::agent_status::manager::SnapshotView;
use crate::entries::{has_entry, lemma_place_of, place_of};
use crate::order::{in_order, law_sorted_is_ordered};
use crate::sidebar::model::{
    session_with_id, ProjectEntryView, SessionEntry, SessionEntryView, SessionView,
    WorkspaceSidebarSession,
};
use crate::sidebar::status::{
    law_normal_status_is_stable, normal_status, out_of_date, stored_snapshot, Timestamp,
};
use crate::sidebar::store::{
    all_repaired, has_root, lemma_root_place, listed_sessions, repaired, shown_session,
    with_snapshot,
};
use crate::text::trimmed;

verus! {

/// Repairing sessions that were repaired at the same moment changes nothing.
pub proof fn law_repair_is_stable(sessions: Seq<SessionEntryView>, now: Timestamp)
    ensures
        all_repaired(all_repaired(sessions, now), now) == all_repaired(sessions, now),
{
    reveal_strlit("idle");
    reveal_strlit("loading");
    reveal_strlit("need_approve");
    reveal_strlit("running");
    reveal_strlit("done");
    reveal_strlit("error");
    reveal_strlit("structured");
    reveal_strlit("low");
    let once = all_repaired(sessions, now);
    assert forall|i: int| 0 <= i < sessions.len() implies repaired(once[i], now) == #[trigger] once[i] by {
        let session = sessions[i];
        let filled = if session.status.len() == 0 {
            SessionStatus::Idle.storage_text()
        } else {
            session.status
        };
        law_status_reads_back(SessionStatus::Idle);
        law_normal_status_is_stable(filled, session.updated_at, now);
        assert(once[i] == repaired(session, now));
        assert(SessionStatusSource::Structured.storage_text().len() > 0);
        assert(SessionStatusConfidence::Low.storage_text().len() > 0);
        assert(once[i].status == normal_status(filled, session.updated_at, now));
        assert(once[i].status.len() > 0);
    }
    assert(all_repaired(once, now) =~= once);
}

/// Repairing keeps the ids, titles, pins and times of the sessions, and their order.
pub proof fn law_repair_keeps_sessions(sessions: Seq<SessionEntryView>, now: Timestamp, i: int)
    requires
        0 <= i < sessions.len(),
    ensures
        all_repaired(sessions, now).len() == sessions.len(),
        all_repaired(sessions, now)[i].id == sessions[i].id,
        all_repaired(sessions, now)[i].title == sessions[i].title,
        all_repaired(sessions, now)[i].codex_thread_id == sessions[i].codex_thread_id,
        all_repaired(sessions, now)[i].pinned == sessions[i].pinned,
        all_repaired(sessions, now)[i].updated_at == sessions[i].updated_at,
{
}

/// No two sessions have the same id.
pub open spec fn distinct_ids(sessions: Seq<SessionEntryView>) -> bool {
    forall|i: int, j: int|
        0 <= i < j < sessions.len() ==> (#[trigger] sessions[i]).id != (#[trigger] sessions[j]).id
}

proof fn lemma_session_with_id(sessions: Seq<SessionView>, id: Seq<char>)
    ensures
        session_with_id(sessions, id) matches Some(found) ==> sessions.contains(found) && found.id
            == id,
        session_with_id(sessions, id) is None ==> forall|i: int|
            0 <= i < sessions.len() ==> (#[trigger] sessions[i]).id != id,
    decreases sessions.len(),
{
    if sessions.len() > 0 {
        if sessions[0].id == id {
            assert(sessions.contains(sessions[0]));
        } else {
            let rest = sessions.skip(1);
            lemma_session_with_id(rest, id);
            if session_with_id(rest, id) is Some {
                let k = choose|k: int| 0 <= k < rest.len() && rest[k] == session_with_id(rest, id)->0;
                assert(sessions[k + 1] == rest[k]);
            } else {
                assert forall|i: int| 0 <= i < sessions.len() implies (#[trigger] sessions[i]).id
                    != id by {
                    if i > 0 {
                        assert(rest[i - 1] == sessions[i]);
                    }
                }
            }
        }
    }
}

/// The sessions of a project are all listed, from the one that changed last, and where no two have
/// the same id each is found under its own.
pub proof fn law_listed_session_is_found(sessions: Seq<SessionEntryView>, k: int)
    requires
        distinct_ids(sessions),
        0 <= k < sessions.len(),
    ensures
        session_with_id(listed_sessions(sessions), sessions[k].id) == Some(
            shown_session(sessions[k]),
        ),
        listed_sessions(sessions).len() == sessions.len(),
        in_order::<WorkspaceSidebarSession>(listed_sessions(sessions), true),
{
    broadcast use vstd::seq_lib::group_to_multiset_ensures;

    let rows = sessions.map_values(|session: SessionEntryView| shown_session(session));
    let shown = listed_sessions(sessions);
    let id = sessions[k].id;
    law_sorted_is_ordered::<WorkspaceSidebarSession>(rows, true);
    lemma_session_with_id(shown, id);
    assert(rows[k] == shown_session(sessions[k]));
    assert(rows.contains(rows[k]));
    assert(rows.to_multiset().count(rows[k]) > 0);
    assert(shown.contains(rows[k]));
    let at = choose|at: int| 0 <= at < shown.len() && shown[at] == rows[k];
    assert(shown[at].id == id);
    let found = session_with_id(shown, id)->0;
    assert(shown.to_multiset().count(found) > 0);
    assert(rows.contains(found));
    let j = choose|j: int| 0 <= j < rows.len() && rows[j] == found;
    assert(sessions[j].id == id);
    if j < k {
        assert(sessions[j].id != sessions[k].id);
    } else if k < j {
        assert(sessions[k].id != sessions[j].id);
    }
}

/// After a session is pinned or unpinned, the sidebar shows it so.
pub proof fn law_pin_is_shown(
    sessions: Seq<SessionEntryView>,
    id: Seq<char>,
    pinned: bool,
    updated_at: Seq<char>,
    now: Timestamp,
)
    requires
        distinct_ids(sessions),
        has_entry::<SessionEntry>(sessions, id),
    ensures
        ({
            let place = place_of::<SessionEntry>(sessions, id);
            let after = sessions.update(
                place,
                SessionEntryView { pinned, updated_at, ..sessions[place] },
            );
            session_with_id(listed_sessions(all_repaired(after, now)), id) matches Some(shown)
                && shown.pinned == pinned
        }),
{
    lemma_place_of::<SessionEntry>(sessions, id);
    let place = place_of::<SessionEntry>(sessions, id);
    let after = sessions.update(place, SessionEntryView { pinned, updated_at, ..sessions[place] });
    let fixed = all_repaired(after, now);
    assert forall|i: int, j: int| 0 <= i < j < fixed.len() implies (#[trigger] fixed[i]).id != (
    #[trigger] fixed[j]).id by {
        assert(fixed[i].id == sessions[i].id);
        assert(fixed[j].id == sessions[j].id);
    }
    law_listed_session_is_found(fixed, place);
}

/// The status that was noted for a session is the one that is read back after the state was loaded
/// again, as long as it is not out of date by then. A blank reason is none.
pub proof fn law_status_is_restored(
    sessions: Seq<SessionEntryView>,
    id: Seq<char>,
    snapshot: SnapshotView,
    updated_at: Seq<char>,
    now: Timestamp,
)
    requires
        distinct_ids(sessions),
        has_entry::<SessionEntry>(sessions, id),
        !out_of_date(snapshot.status.storage_text(), updated_at, now),
    ensures
        ({
            let place = place_of::<SessionEntry>(sessions, id);
            let after = sessions.update(
                place,
                with_snapshot(sessions[place], snapshot, updated_at),
            );
            session_with_id(listed_sessions(all_repaired(after, now)), id) matches Some(shown)
                && stored_snapshot(shown) == (SnapshotView {
                reason: match snapshot.reason {
                    Some(reason) => if trimmed(reason).len() == 0 {
                        None
                    } else {
                        Some(reason)
                    },
                    None => None,
                },
                ..snapshot
            })
        }),
{
    reveal_strlit("idle");
    reveal_strlit("loading");
    reveal_strlit("need_approve");
    reveal_strlit("running");
    reveal_strlit("done");
    reveal_strlit("error");
    reveal_strlit("structured");
    reveal_strlit("heuristic");
    reveal_strlit("high");
    reveal_strlit("low");
    lemma_place_of::<SessionEntry>(sessions, id);
    law_status_reads_back(snapshot.status);
    law_source_reads_back(snapshot.source);
    law_confidence_reads_back(snapshot.confidence);
    let place = place_of::<SessionEntry>(sessions, id);
    let noted = with_snapshot(sessions[place], snapshot, updated_at);
    let after = sessions.update(place, noted);
    let fixed = all_repaired(after, now);
    assert(fixed[place] == noted);
    assert forall|i: int, j: int| 0 <= i < j < fixed.len() implies (#[trigger] fixed[i]).id != (
    #[trigger] fixed[j]).id by {
        assert(fixed[i].id == sessions[i].id);
        assert(fixed[j].id == sessions[j].id);
    }
    law_listed_session_is_found(fixed, place);
}

/// A status that is out of date when the state is loaded again is read back as idle.
pub proof fn law_stale_status_is_read_as_idle(
    sessions: Seq<SessionEntryView>,
    id: Seq<char>,
    snapshot: SnapshotView,
    updated_at: Seq<char>,
    now: Timestamp,
)
    requires
        distinct_ids(sessions),
        has_entry::<SessionEntry>(sessions, id),
        out_of_date(snapshot.status.storage_text(), updated_at, now),
    ensures
        ({
            let place = place_of::<SessionEntry>(sessions, id);
            let after = sessions.update(
                place,
                with_snapshot(sessions[place], snapshot, updated_at),
            );
            session_with_id(listed_sessions(all_repaired(after, now)), id) matches Some(shown)
                && stored_snapshot(shown) == (SnapshotView {
                status: SessionStatus::Idle,
                source: SessionStatusSource::Structured,
                confidence: SessionStatusConfidence::Low,
                reason: None,
            })
        }),
{
    reveal_strlit("idle");
    reveal_strlit("loading");
    reveal_strlit("need_approve");
    reveal_strlit("running");
    reveal_strlit("done");
    reveal_strlit("error");
    reveal_strlit("structured");
    reveal_strlit("heuristic");
    reveal_strlit("high");
    reveal_strlit("low");
    lemma_place_of::<SessionEntry>(sessions, id);
    law_status_reads_back(snapshot.status);
    law_status_reads_back(SessionStatus::Idle);
    law_source_reads_back(SessionStatusSource::Structured);
    law_confidence_reads_back(SessionStatusConfidence::Low);
    let place = place_of::<SessionEntry>(sessions, id);
    let noted = with_snapshot(sessions[place], snapshot, updated_at);
    let after = sessions.update(place, noted);
    let fixed = all_repaired(after, now);
    assert(fixed[place] == repaired(noted, now));
    assert(SessionStatus::Idle.storage_text() != noted.status);
    assert(fixed[place].status_reason =~= Seq::<char>::empty());
    assert forall|i: int, j: int| 0 <= i < j < fixed.len() implies (#[trigger] fixed[i]).id != (
    #[trigger] fixed[j]).id by {
        assert(fixed[i].id == sessions[i].id);
        assert(fixed[j].id == sessions[j].id);
    }
    law_listed_session_is_found(fixed, place);
}

/// Where no two sessions have the same id, a deleted session is gone and the others stay.
pub proof fn law_deleted_session_is_gone(
    sessions: Seq<SessionEntryView>,
    id: Seq<char>,
    other: SessionEntryView,
)
    requires
        distinct_ids(sessions),
        has_entry::<SessionEntry>(sessions, id),
    ensures
        ({
            let after = sessions.remove(place_of::<SessionEntry>(sessions, id));
            &&& distinct_ids(after)
            &&& !has_entry::<SessionEntry>(after, id)
            &&& sessions.contains(other) && other.id != id ==> after.contains(other)
        }),
{
    let place = place_of::<SessionEntry>(sessions, id);
    let after = sessions.remove(place);
    lemma_place_of::<SessionEntry>(sessions, id);
    lemma_place_of::<SessionEntry>(after, id);
    assert forall|i: int| 0 <= i < after.len() implies (#[trigger] after[i]).id != id by {
        let from = if i < place {
            i
        } else {
            i + 1
        };
        assert(after[i] == sessions[from]);
        if from < place {
            assert(sessions[from].id != sessions[place].id);
        } else {
            assert(sessions[place].id != sessions[from].id);
        }
    }
    assert forall|i: int, j: int| 0 <= i < j < after.len() implies (#[trigger] after[i]).id != (
    #[trigger] after[j]).id by {
        let a = if i < place {
            i
        } else {
            i + 1
        };
        let b = if j < place {
            j
        } else {
            j + 1
        };
        assert(after[i] == sessions[a] && after[j] == sessions[b]);
    }
    if has_entry::<SessionEntry>(after, id) {
        assert(after[place_of::<SessionEntry>(after, id)].id == id);
    }
    if sessions.contains(other) && other.id != id {
        let k = choose|k: int| 0 <= k < sessions.len() && sessions[k] == other;
        if k < place {
            assert(after[k] == other);
        } else {
            assert(after[k - 1] == other);
        }
    }
}

/// No two projects have the same root.
pub open spec fn distinct_roots(projects: Seq<ProjectEntryView>) -> bool {
    forall|i: int, j: int|
        0 <= i < j < projects.len() ==> (#[trigger] projects[i]).root_path != (
        #[trigger] projects[j]).root_path
}

/// A project is added only for a root that none has, so that no two projects get the same root.
pub proof fn law_roots_stay_distinct(projects: Seq<ProjectEntryView>, added: ProjectEntryView)
    requires
        distinct_roots(projects),
        !has_root(projects, added.root_path),
    ensures
        distinct_roots(projects.push(added)),
        has_root(projects.push(added), added.root_path),
{
    let after = projects.push(added);
    lemma_root_place(projects, added.root_path);
    lemma_root_place(after, added.root_path);
    assert forall|i: int, j: int| 0 <= i < j < after.len() implies (#[trigger] after[i]).root_path
        != (#[trigger] after[j]).root_path by {
        assert(after[i] == projects[i]);
        if j < projects.len() {
            assert(after[j] == projects[j]);
        }
    }
    assert(after[projects.len() as int].root_path == added.root_path);
}

} // verus!
