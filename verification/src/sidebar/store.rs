//! Changes to the stored files, and what the sidebar shows of them.
use vstd::prelude::*;

use crate::agent_status::events::{SessionStatus, SessionStatusConfidence, SessionStatusSource};
use crate::agent_status::manager::{SessionStatusSnapshot, SnapshotView};
use crate::entries::{find_place, has_entry, place_of, Identified};
use crate::numbers::{decimal, decimal_of, law_decimal_distinct};
use crate::order::{is_before, sorted, stable_sort, text_before};
use crate::paths::{file_name, file_name_of};
use crate::sidebar::model::{
    ProjectEntry, ProjectEntryView, ProjectView, ProjectsFile, SessionEntry, SessionEntryView,
    SessionView, SessionsFile, SnippetEntry, SnippetEntryView, WorkspaceSidebarProject,
    WorkspaceSidebarSession,
};
use crate::sidebar::status::{normal_status, normalize_transient_session_status, Timestamp};
use crate::text::{is_empty, joined, same_text, trim, trimmed};

verus! {

// ---------------------------------------------------------------------------
// Entries
// ---------------------------------------------------------------------------

impl Identified for ProjectEntry {
    open spec fn id_of(value: ProjectEntryView) -> Seq<char> {
        value.id
    }

    fn has_id(&self, id: &str) -> (r: bool) {
        same_text(self.id.as_str(), id)
    }
}

impl Identified for SessionEntry {
    open spec fn id_of(value: SessionEntryView) -> Seq<char> {
        value.id
    }

    fn has_id(&self, id: &str) -> (r: bool) {
        same_text(self.id.as_str(), id)
    }
}

impl Identified for SnippetEntry {
    open spec fn id_of(value: SnippetEntryView) -> Seq<char> {
        value.id
    }

    fn has_id(&self, id: &str) -> (r: bool) {
        same_text(self.id.as_str(), id)
    }
}

// ---------------------------------------------------------------------------
// Sessions
// ---------------------------------------------------------------------------

/// The stored form of a session once repaired: fields that are missing are filled in, and a status
/// that is out of date or not known becomes idle.
pub open spec fn repaired(session: SessionEntryView, now: Timestamp) -> SessionEntryView {
    let filled = SessionEntryView {
        status: if session.status.len() == 0 {
            SessionStatus::Idle.storage_text()
        } else {
            session.status
        },
        status_source: if session.status_source.len() == 0 {
            SessionStatusSource::Structured.storage_text()
        } else {
            session.status_source
        },
        status_confidence: if session.status_confidence.len() == 0 {
            SessionStatusConfidence::Low.storage_text()
        } else {
            session.status_confidence
        },
        ..session
    };
    let status = normal_status(filled.status, filled.updated_at, now);
    if status == filled.status {
        filled
    } else {
        SessionEntryView {
            status,
            status_source: SessionStatusSource::Structured.storage_text(),
            status_confidence: SessionStatusConfidence::Low.storage_text(),
            status_reason: Seq::empty(),
            ..filled
        }
    }
}

/// The stored sessions once repaired.
pub open spec fn all_repaired(sessions: Seq<SessionEntryView>, now: Timestamp) -> Seq<
    SessionEntryView,
> {
    sessions.map_values(|session: SessionEntryView| repaired(session, now))
}

fn repair_session(session: &mut SessionEntry, now: Timestamp) -> (r: bool)
    ensures
        final(session).deep_view() == repaired(old(session).deep_view(), now),
        r == (final(session).deep_view() != old(session).deep_view()),
{
    let ghost before = session.deep_view();
    let mut changed = false;
    if is_empty(session.status.as_str()) {
        session.status = SessionStatus::Idle.as_storage_str().to_owned();
        changed = true;
    }
    if is_empty(session.status_source.as_str()) {
        session.status_source = SessionStatusSource::Structured.as_storage_str().to_owned();
        changed = true;
    }
    if is_empty(session.status_confidence.as_str()) {
        session.status_confidence = SessionStatusConfidence::Low.as_storage_str().to_owned();
        changed = true;
    }
    proof {
        reveal_strlit("idle");
        reveal_strlit("structured");
        reveal_strlit("low");
        assert(changed ==> session.deep_view() != before);
    }
    let status = normalize_transient_session_status(
        session.status.as_str(),
        session.updated_at.as_str(),
        now,
    );
    if !same_text(status.as_str(), session.status.as_str()) {
        session.status = status;
        session.status_source = SessionStatusSource::Structured.as_storage_str().to_owned();
        session.status_confidence = SessionStatusConfidence::Low.as_storage_str().to_owned();
        session.status_reason = String::new();
        changed = true;
        proof {
            crate::sidebar::status::law_normal_status_is_stable(
                SessionStatus::Idle.storage_text(),
                before.updated_at,
                now,
            );
            crate::agent_status::events::law_status_reads_back(SessionStatus::Idle);
        }
    }
    changed
}

/// Repairs stored sessions; true where something was changed.
pub fn repair_sessions(file: &mut SessionsFile, now: Timestamp) -> (r: bool)
    ensures
        final(file).version == old(file).version,
        final(file).sessions.deep_view() == all_repaired(old(file).sessions.deep_view(), now),
        r == (final(file).sessions.deep_view() != old(file).sessions.deep_view()),
{
    let ghost before = file.sessions.deep_view();
    let mut left: Vec<SessionEntry> = Vec::new();
    std::mem::swap(&mut left, &mut file.sessions);
    let mut kept: Vec<SessionEntry> = Vec::new();
    let mut changed = false;
    let ghost mut done: int = 0;
    assert(kept.deep_view() =~= all_repaired(before, now).take(0));
    assert(kept.deep_view() =~= before.take(0));
    assert(before.skip(0) =~= before);
    while left.len() > 0
        invariant
            0 <= done <= before.len(),
            left.deep_view() == before.skip(done),
            left@.len() == before.len() - done,
            kept.deep_view() == all_repaired(before, now).take(done),
            changed == (kept.deep_view() != before.take(done)),
            file.version == old(file).version,
        decreases left@.len(),
    {
        let ghost remaining = left.deep_view();
        let ghost so_far = kept.deep_view();
        let mut session = left.remove(0);
        let ghost was = session.deep_view();
        proof {
            assert(remaining[0] == was);
            assert(left.deep_view() =~= remaining.skip(1));
            assert(before.skip(done).skip(1) =~= before.skip(done + 1));
        }
        let one = repair_session(&mut session, now);
        kept.push(session);
        proof {
            assert(kept.deep_view() =~= so_far.push(session.deep_view()));
            assert(all_repaired(before, now).take(done + 1) =~= all_repaired(before, now).take(
                done,
            ).push(repaired(was, now)));
            assert(before.take(done + 1) =~= before.take(done).push(was));
            if so_far.push(session.deep_view()) == before.take(done).push(was) {
                assert(so_far.push(session.deep_view()).last() == before.take(done).push(was).last());
                assert(so_far.push(session.deep_view()).drop_last() =~= so_far);
                assert(before.take(done).push(was).drop_last() =~= before.take(done));
            }
            done = done + 1;
        }
        if one {
            changed = true;
        }
    }
    assert(before.take(done) =~= before);
    assert(all_repaired(before, now).take(done) =~= all_repaired(before, now));
    file.sessions = kept;
    changed
}

/// What the sidebar shows of a stored session.
pub open spec fn shown_session(session: SessionEntryView) -> SessionView {
    SessionView {
        id: session.id,
        title: session.title,
        status: session.status,
        status_source: session.status_source,
        status_confidence: session.status_confidence,
        status_reason: session.status_reason,
        pinned: session.pinned,
        updated_at: session.updated_at,
    }
}

/// The sessions of a project as the sidebar lists them, from the one that changed last.
pub open spec fn listed_sessions(sessions: Seq<SessionEntryView>) -> Seq<SessionView> {
    sorted::<WorkspaceSidebarSession>(
        sessions.map_values(|session: SessionEntryView| shown_session(session)),
        true,
    )
}

fn list_sessions(sessions: &Vec<SessionEntry>) -> (r: Vec<WorkspaceSidebarSession>)
    ensures
        r.deep_view() == listed_sessions(sessions.deep_view()),
{
    let ghost all = sessions.deep_view();
    let ghost shown = all.map_values(|session: SessionEntryView| shown_session(session));
    let mut out: Vec<WorkspaceSidebarSession> = Vec::new();
    let mut i: usize = 0;
    assert(out.deep_view() =~= shown.take(0));
    while i < sessions.len()
        invariant
            i <= sessions@.len(),
            all == sessions.deep_view(),
            shown == all.map_values(|session: SessionEntryView| shown_session(session)),
            out.deep_view() == shown.take(i as int),
        decreases sessions@.len() - i,
    {
        let ghost before = out.deep_view();
        let session = sessions[i].clone();
        let ghost view = session.deep_view();
        let row = WorkspaceSidebarSession {
            id: session.id,
            title: session.title,
            status: session.status,
            status_source: session.status_source,
            status_confidence: session.status_confidence,
            status_reason: session.status_reason,
            pinned: session.pinned,
            updated_at: session.updated_at,
        };
        assert(row.deep_view() == shown_session(view));
        out.push(row);
        assert(out.deep_view() =~= before.push(shown_session(view)));
        assert(shown.take(i + 1) =~= shown.take(i as int).push(shown_session(view)));
        i = i + 1;
    }
    assert(shown.take(i as int) =~= shown);
    stable_sort(out, true)
}

/// The stored sessions of a project, over sequences; absent where they could not be read.
pub open spec fn stored_sessions(file: Option<SessionsFile>) -> Option<Seq<SessionEntryView>> {
    match file {
        Some(sessions) => Some(sessions.sessions.deep_view()),
        None => None,
    }
}

/// A project as the sidebar shows it, with its sessions as they were read.
pub open spec fn shown_project(
    project: ProjectEntryView,
    sessions: Option<Seq<SessionEntryView>>,
    now: Timestamp,
) -> ProjectView {
    ProjectView {
        id: project.id,
        name: project.name,
        root_path: project.root_path,
        sessions: match sessions {
            Some(stored) => listed_sessions(all_repaired(stored, now)),
            None => Seq::empty(),
        },
    }
}

/// The projects with their sessions, in the order in which they are stored.
pub open spec fn shown_projects(
    projects: Seq<ProjectEntryView>,
    sessions: Seq<Option<Seq<SessionEntryView>>>,
    now: Timestamp,
) -> Seq<ProjectView> {
    Seq::new(projects.len(), |i: int| shown_project(projects[i], sessions[i], now))
}

/// The sessions that were read, over sequences.
pub open spec fn all_stored(files: Seq<Option<SessionsFile>>) -> Seq<
    Option<Seq<SessionEntryView>>,
> {
    Seq::new(files.len(), |i: int| stored_sessions(files[i]))
}

/// The places of the projects whose sessions were repaired and have to be written.
pub open spec fn to_write(sessions: Seq<Option<Seq<SessionEntryView>>>, now: Timestamp) -> Seq<int>
    decreases sessions.len(),
{
    if sessions.len() == 0 {
        Seq::empty()
    } else {
        let head = to_write(sessions.drop_last(), now);
        if sessions.last() matches Some(stored) && all_repaired(stored, now) != stored {
            head.push(sessions.len() - 1)
        } else {
            head
        }
    }
}

/// Files of repaired sessions, each with the place of its project.
pub open spec fn write_places(writes: Seq<(usize, SessionsFile)>) -> Seq<int> {
    Seq::new(writes.len(), |i: int| writes[i].0 as int)
}

/// Each file holds the repaired sessions of its project, under the version that was read.
pub open spec fn writes_hold(
    writes: Seq<(usize, SessionsFile)>,
    files: Seq<Option<SessionsFile>>,
    now: Timestamp,
) -> bool {
    forall|i: int|
        0 <= i < writes.len() ==> (#[trigger] writes[i]).0 < files.len()
            && (files[writes[i].0 as int] matches Some(file) && writes[i].1.version == file.version
            && writes[i].1.sessions.deep_view() == all_repaired(file.sessions.deep_view(), now))
}

/// What the sidebar shows of the stored projects: each with its repaired sessions from the one that
/// changed last, and the projects by name. `sessions` holds the stored sessions of each project,
/// absent where there are none or they cannot be read. Gives back also the repaired sessions that
/// have to be written, with the place of their project.
pub fn load_workspace_sidebar_projects(
    projects: Vec<ProjectEntry>,
    sessions: Vec<Option<SessionsFile>>,
    now: Timestamp,
) -> (r: (Vec<WorkspaceSidebarProject>, Vec<(usize, SessionsFile)>))
    requires
        sessions@.len() == projects@.len(),
    ensures
        r.0.deep_view() == sorted::<WorkspaceSidebarProject>(
            shown_projects(projects.deep_view(), all_stored(sessions@), now),
            false,
        ),
        write_places(r.1@) == to_write(all_stored(sessions@), now),
        writes_hold(r.1@, sessions@, now),
{
    let ghost entries = projects.deep_view();
    let ghost files = sessions@;
    let ghost stored = all_stored(files);
    let ghost shown = shown_projects(entries, stored, now);
    let mut left = projects;
    let mut left_sessions = sessions;
    let mut out: Vec<WorkspaceSidebarProject> = Vec::new();
    let mut writes: Vec<(usize, SessionsFile)> = Vec::new();
    let mut done: usize = 0;
    let total: usize = left.len();
    assert(entries.len() == left@.len());
    assert(out.deep_view() =~= shown.take(0));
    assert(write_places(writes@) =~= to_write(stored.take(0), now));
    assert(entries.skip(0) =~= entries);
    assert(files.skip(0) =~= files);
    while left.len() > 0
        invariant
            done <= entries.len() == total,
            entries.len() == files.len(),
            stored == all_stored(files),
            shown == shown_projects(entries, stored, now),
            left.deep_view() == entries.skip(done as int),
            left@.len() == entries.len() - done,
            left_sessions@ == files.skip(done as int),
            out.deep_view() == shown.take(done as int),
            write_places(writes@) == to_write(stored.take(done as int), now),
            writes_hold(writes@, files, now),
        decreases left@.len(),
    {
        let ghost remaining = left.deep_view();
        let ghost before = out.deep_view();
        let ghost written = writes@;
        let project = left.remove(0);
        let file = left_sessions.remove(0);
        let ghost entry = project.deep_view();
        proof {
            assert(remaining[0] == entry);
            assert(left.deep_view() =~= remaining.skip(1));
            assert(entries.skip(done as int).skip(1) =~= entries.skip(done + 1));
            assert(files.skip(done as int).skip(1) =~= files.skip(done + 1));
            assert(left_sessions@ =~= files.skip(done + 1));
            assert(file == files[done as int]);
            assert(stored.take(done + 1).drop_last() =~= stored.take(done as int));
            assert(stored.take(done + 1).last() == stored_sessions(file));
        }
        let rows: Vec<WorkspaceSidebarSession> = match file {
            Some(mut found) => {
                let ghost was = found.sessions.deep_view();
                let changed = repair_sessions(&mut found, now);
                let rows = list_sessions(&found.sessions);
                if changed {
                    writes.push((done, found));
                    proof {
                        assert(write_places(writes@) =~= write_places(written).push(done as int));
                    }
                }
                rows
            },
            None => {
                let none: Vec<WorkspaceSidebarSession> = Vec::new();
                assert(none.deep_view() =~= Seq::<SessionView>::empty());
                none
            },
        };
        let row = WorkspaceSidebarProject {
            id: project.id,
            name: project.name,
            root_path: project.root_path,
            sessions: rows,
        };
        proof {
            assert(row.deep_view() == shown_project(entry, stored[done as int], now));
            assert(entries[done as int] == entry);
        }
        out.push(row);
        proof {
            assert(out.deep_view() =~= before.push(row.deep_view()));
            assert(shown.take(done + 1) =~= shown.take(done as int).push(row.deep_view()));
        }
        done = done + 1;
    }
    proof {
        assert(shown.take(done as int) =~= shown);
        assert(stored.take(done as int) =~= stored);
    }
    (stable_sort(out, false), writes)
}

/// The title of the session with a number.
pub open spec fn numbered_title(n: nat) -> Seq<char> {
    "session-"@ + decimal_of(n)
}

/// The titles of stored sessions.
pub open spec fn titles_of(sessions: Seq<SessionEntryView>) -> Seq<Seq<char>> {
    sessions.map_values(|session: SessionEntryView| session.title)
}

/// The title is numbered by `n`, no session has it, and every number between how many sessions
/// there are and `n` is taken.
pub open spec fn next_title(titles: Seq<Seq<char>>, title: Seq<char>, n: nat) -> bool {
    &&& n > titles.len()
    &&& title == numbered_title(n)
    &&& !titles.contains(title)
    &&& forall|m: nat|
        titles.len() < m < n ==> titles.contains(#[trigger] numbered_title(m))
}

proof fn lemma_numbered_titles_differ(a: nat, b: nat)
    requires
        a != b,
    ensures
        numbered_title(a) != numbered_title(b),
{
    law_decimal_distinct(a, b);
    let head = "session-"@;
    if numbered_title(a) == numbered_title(b) {
        assert(decimal_of(a) =~= numbered_title(a).skip(head.len() as int));
        assert(decimal_of(b) =~= numbered_title(b).skip(head.len() as int));
    }
}

/// Among as many sessions, not all of one number more are taken.
proof fn lemma_some_number_free(titles: Seq<Seq<char>>, count: nat)
    requires
        forall|m: nat|
            titles.len() < m <= titles.len() + count ==> titles.contains(
                #[trigger] numbered_title(m),
            ),
    ensures
        count <= titles.len(),
{
    let taken = Seq::new(count, |i: int| numbered_title((titles.len() + 1 + i) as nat));
    assert(taken.no_duplicates()) by {
        assert forall|i: int, j: int| 0 <= i < taken.len() && 0 <= j < taken.len() && i != j
            implies taken[i] != taken[j] by {
            lemma_numbered_titles_differ(
                (titles.len() + 1 + i) as nat,
                (titles.len() + 1 + j) as nat,
            );
        }
    }
    taken.unique_seq_to_set();
    titles.lemma_cardinality_of_set();
    assert(taken.to_set().subset_of(titles.to_set())) by {
        assert forall|t: Seq<char>| taken.to_set().contains(t) implies titles.to_set().contains(
            t,
        ) by {
            let i = choose|i: int| 0 <= i < taken.len() && taken[i] == t;
            assert(titles.contains(numbered_title((titles.len() + 1 + i) as nat)));
        }
    }
    vstd::set_lib::lemma_len_subset(taken.to_set(), titles.to_set());
}

fn has_title(existing: &Vec<SessionEntry>, title: &str) -> (r: bool)
    ensures
        r == titles_of(existing.deep_view()).contains(title@),
{
    let ghost titles = titles_of(existing.deep_view());
    let mut i: usize = 0;
    while i < existing.len()
        invariant
            i <= existing@.len(),
            titles == titles_of(existing.deep_view()),
            forall|j: int| 0 <= j < i ==> titles[j] != title@,
        decreases existing@.len() - i,
    {
        assert(titles[i as int] == existing@[i as int].title@);
        if same_text(existing[i].title.as_str(), title) {
            return true;
        }
        i = i + 1;
    }
    false
}

/// A title for a new session: the first numbered one that is free, from one more than there are
/// sessions.
pub fn sidebar_next_session_title(existing: &Vec<SessionEntry>) -> (r: String)
    ensures
        exists|n: nat| #[trigger] next_title(titles_of(existing.deep_view()), r@, n),
{
    let ghost titles = titles_of(existing.deep_view());
    assert(titles.len() == existing@.len());
    let mut idx: u128 = existing.len() as u128 + 1;
    loop
        invariant
            titles == titles_of(existing.deep_view()),
            titles.len() == existing@.len(),
            titles.len() < idx <= 2 * titles.len() + 1,
            titles.len() <= usize::MAX,
            forall|m: nat|
                titles.len() < m < idx ==> titles.contains(#[trigger] numbered_title(m)),
        decreases 2 * titles.len() + 2 - idx,
    {
        let candidate = joined("session-", decimal(idx).as_str());
        if !has_title(existing, candidate.as_str()) {
            assert(next_title(titles, candidate@, idx as nat));
            return candidate;
        }
        proof {
            assert(candidate@ == numbered_title(idx as nat));
            lemma_some_number_free(titles, (idx - titles.len()) as nat);
        }
        idx = idx + 1;
    }
}

/// A session as it is when it is made: idle, by a guess.
pub open spec fn new_session(id: Seq<char>, title: Seq<char>, now: Seq<char>) -> SessionEntryView {
    SessionEntryView {
        id,
        title,
        status: SessionStatus::Idle.storage_text(),
        codex_thread_id: Seq::empty(),
        status_source: SessionStatusSource::Heuristic.storage_text(),
        status_confidence: SessionStatusConfidence::Low.storage_text(),
        status_reason: Seq::empty(),
        pinned: false,
        updated_at: now,
    }
}

fn make_session(id: &str, title: String, now: &str) -> (r: SessionEntry)
    ensures
        r.deep_view() == new_session(id@, title@, now@),
{
    SessionEntry {
        id: id.to_owned(),
        title,
        status: SessionStatus::Idle.as_storage_str().to_owned(),
        codex_thread_id: String::new(),
        status_source: SessionStatusSource::Heuristic.as_storage_str().to_owned(),
        status_confidence: SessionStatusConfidence::Low.as_storage_str().to_owned(),
        status_reason: String::new(),
        pinned: false,
        updated_at: now.to_owned(),
    }
}

/// Adds a session with the next title behind the others.
pub fn sidebar_create_session_in_project(file: &mut SessionsFile, id: &str, now: &str)
    ensures
        final(file).version == old(file).version,
        exists|title: Seq<char>, n: nat| #[trigger]
            next_title(titles_of(old(file).sessions.deep_view()), title, n)
                && final(file).sessions.deep_view() == old(file).sessions.deep_view().push(
                new_session(id@, title, now@),
            ),
{
    let ghost before = file.sessions.deep_view();
    let title = sidebar_next_session_title(&file.sessions);
    let ghost chosen = title@;
    let session = make_session(id, title, now);
    file.sessions.push(session);
    proof {
        assert(file.sessions.deep_view() =~= before.push(session.deep_view()));
        let n = choose|n: nat| #[trigger] next_title(titles_of(before), chosen, n);
        assert(next_title(titles_of(before), chosen, n));
    }
}

/// The stored session that changed last, by its text; of several, the last.
pub open spec fn latest_stored(sessions: Seq<SessionEntryView>) -> Option<SessionEntryView>
    decreases sessions.len(),
{
    if sessions.len() == 0 {
        None
    } else {
        let best = latest_stored(sessions.drop_last());
        if best is Some && text_before(sessions.last().updated_at, best->0.updated_at) {
            best
        } else {
            Some(sessions.last())
        }
    }
}

/// Makes sure that a project has a session: a first one is added where it has none. Gives back the
/// id of the session that changed last, and whether one was added.
pub fn ensure_sidebar_project_has_session(file: &mut SessionsFile, new_id: &str, now: &str) -> (r: (String, bool))
    ensures
        final(file).version == old(file).version,
        r.1 == (old(file).sessions@.len() == 0),
        r.1 ==> r.0@ == new_id@ && final(file).sessions.deep_view() == seq![
            new_session(new_id@, "session-1"@, now@),
        ],
        !r.1 ==> *final(file) == *old(file) && latest_stored(
            old(file).sessions.deep_view(),
        ) is Some && r.0@ == latest_stored(old(file).sessions.deep_view())->0.id,
{
    if file.sessions.len() == 0 {
        let session = make_session(new_id, "session-1".to_owned(), now);
        file.sessions.push(session);
        assert(file.sessions.deep_view() =~= seq![session.deep_view()]);
        return (new_id.to_owned(), true);
    }
    let ghost all = file.sessions.deep_view();
    assert(all.len() == file.sessions@.len());
    let mut best: usize = 0;
    let mut i: usize = 1;
    proof {
        assert(all.take(1).drop_last() =~= Seq::<SessionEntryView>::empty());
        assert(all.take(1).last() == all[0]);
        reveal_with_fuel(latest_stored, 2);
    }
    while i < file.sessions.len()
        invariant
            1 <= i <= file.sessions@.len(),
            best < file.sessions@.len(),
            *file == *old(file),
            all == file.sessions.deep_view(),
            latest_stored(all.take(i as int)) == Some(all[best as int]),
        decreases file.sessions@.len() - i,
    {
        proof {
            assert(all.take(i + 1).drop_last() =~= all.take(i as int));
            assert(all.take(i + 1).last() == file.sessions@[i as int].deep_view());
            assert(all[best as int] == file.sessions@[best as int].deep_view());
        }
        if !is_before(
            file.sessions[i].updated_at.as_str(),
            file.sessions[best].updated_at.as_str(),
        ) {
            best = i;
        }
        i = i + 1;
    }
    assert(all.take(i as int) =~= all);
    assert(all[best as int] == file.sessions@[best as int].deep_view());
    (file.sessions[best].id.clone(), false)
}

/// What is said of an id that no stored session has.
pub open spec fn session_missing(id: Seq<char>) -> Seq<char> {
    "session not found in storage: "@ + id
}

/// What a change of one stored session answers and leaves: an error and no change where there is
/// no such session, and else the first such session changed.
pub open spec fn session_changed(
    before: SessionsFile,
    after: SessionsFile,
    id: Seq<char>,
    changed: SessionEntryView,
    answer: Result<(), Seq<char>>,
) -> bool {
    let sessions = before.sessions.deep_view();
    &&& after.version == before.version
    &&& if has_entry::<SessionEntry>(sessions, id) {
        &&& answer is Ok
        &&& after.sessions.deep_view() == sessions.update(
            place_of::<SessionEntry>(sessions, id),
            changed,
        )
    } else {
        &&& answer == Err::<(), Seq<char>>(session_missing(id))
        &&& after == before
    }
}

/// The stored session with an id; any value where there is none.
pub open spec fn session_stored(file: SessionsFile, id: Seq<char>) -> SessionEntryView {
    file.sessions.deep_view()[place_of::<SessionEntry>(file.sessions.deep_view(), id)]
}

/// An answer without its value, over sequences.
pub open spec fn answered<T>(answer: Result<T, String>) -> Result<(), Seq<char>> {
    match answer {
        Ok(_) => Ok(()),
        Err(message) => Err(message@),
    }
}

/// Notes a status snapshot for a stored session.
pub fn sidebar_set_session_status_snapshot(
    file: &mut SessionsFile,
    session_id: &str,
    snapshot: &SessionStatusSnapshot,
    now: &str,
) -> (r: Result<(), String>)
    ensures
        session_changed(
            *old(file),
            *final(file),
            session_id@,
            with_snapshot(
                session_stored(*old(file), session_id@),
                snapshot.deep_view(),
                now@,
            ),
            answered(r),
        ),
{
    let ghost before = file.sessions.deep_view();
    let place: usize = find_place(&file.sessions, session_id);
    if place >= file.sessions.len() {
        return Err(joined("session not found in storage: ", session_id));
    }
    let mut session = file.sessions[place].clone();
    assert(before[place as int] == session.deep_view());
    session.status = snapshot.status.as_storage_str().to_owned();
    session.status_source = snapshot.source.as_storage_str().to_owned();
    session.status_confidence = snapshot.confidence.as_storage_str().to_owned();
    session.status_reason = match &snapshot.reason {
        Some(reason) => reason.clone(),
        None => String::new(),
    };
    session.updated_at = now.to_owned();
    let ghost changed = session.deep_view();
    file.sessions.set(place, session);
    assert(file.sessions.deep_view() =~= before.update(place as int, changed));
    Ok(())
}

/// A stored session with a status snapshot.
pub open spec fn with_snapshot(
    session: SessionEntryView,
    snapshot: SnapshotView,
    now: Seq<char>,
) -> SessionEntryView {
    SessionEntryView {
        status: snapshot.status.storage_text(),
        status_source: snapshot.source.storage_text(),
        status_confidence: snapshot.confidence.storage_text(),
        status_reason: match snapshot.reason {
            Some(reason) => reason,
            None => Seq::empty(),
        },
        updated_at: now,
        ..session
    }
}

/// Pins a stored session, or unpins it.
pub fn sidebar_set_session_pin(
    file: &mut SessionsFile,
    session_id: &str,
    pinned: bool,
    now: &str,
) -> (r: Result<(), String>)
    ensures
        session_changed(
            *old(file),
            *final(file),
            session_id@,
            SessionEntryView {
                pinned,
                updated_at: now@,
                ..session_stored(*old(file), session_id@)
            },
            answered(r),
        ),
{
    let ghost before = file.sessions.deep_view();
    let place: usize = find_place(&file.sessions, session_id);
    if place >= file.sessions.len() {
        return Err(joined("session not found in storage: ", session_id));
    }
    let mut session = file.sessions[place].clone();
    assert(before[place as int] == session.deep_view());
    session.pinned = pinned;
    session.updated_at = now.to_owned();
    let ghost changed = session.deep_view();
    file.sessions.set(place, session);
    assert(file.sessions.deep_view() =~= before.update(place as int, changed));
    Ok(())
}

/// Notes the Codex thread that a stored session runs in.
pub fn sidebar_set_session_codex_thread_id(
    file: &mut SessionsFile,
    session_id: &str,
    thread_id: &str,
) -> (r: Result<(), String>)
    ensures
        session_changed(
            *old(file),
            *final(file),
            session_id@,
            SessionEntryView {
                codex_thread_id: thread_id@,
                ..session_stored(*old(file), session_id@)
            },
            answered(r),
        ),
{
    let ghost before = file.sessions.deep_view();
    let place: usize = find_place(&file.sessions, session_id);
    if place >= file.sessions.len() {
        return Err(joined("session not found in storage: ", session_id));
    }
    let mut session = file.sessions[place].clone();
    assert(before[place as int] == session.deep_view());
    session.codex_thread_id = thread_id.to_owned();
    let ghost changed = session.deep_view();
    file.sessions.set(place, session);
    assert(file.sessions.deep_view() =~= before.update(place as int, changed));
    Ok(())
}

/// Renames a stored session to the trimmed title, and gives it back. A blank title is an error.
pub fn sidebar_rename_session(
    file: &mut SessionsFile,
    session_id: &str,
    title: &str,
    now: &str,
) -> (r: Result<String, String>)
    ensures
        if trimmed(title@).len() == 0 {
            &&& answered(r) == Err::<(), Seq<char>>("session title cannot be empty"@)
            &&& *final(file) == *old(file)
        } else {
            &&& session_changed(
                *old(file),
                *final(file),
                session_id@,
                SessionEntryView {
                    title: trimmed(title@),
                    updated_at: now@,
                    ..session_stored(*old(file), session_id@)
                },
                answered(r),
            )
            &&& r matches Ok(set) ==> set@ == trimmed(title@)
        },
{
    let title = trim(title);
    if is_empty(title.as_str()) {
        return Err("session title cannot be empty".to_owned());
    }
    let ghost before = file.sessions.deep_view();
    let place: usize = find_place(&file.sessions, session_id);
    if place >= file.sessions.len() {
        return Err(joined("session not found in storage: ", session_id));
    }
    let mut session = file.sessions[place].clone();
    assert(before[place as int] == session.deep_view());
    session.title = title.clone();
    session.updated_at = now.to_owned();
    let ghost changed = session.deep_view();
    file.sessions.set(place, session);
    assert(file.sessions.deep_view() =~= before.update(place as int, changed));
    Ok(title)
}

/// Deletes a stored session, and gives back its title.
pub fn sidebar_delete_session(file: &mut SessionsFile, session_id: &str) -> (r: Result<
    String,
    String,
>)
    ensures
        final(file).version == old(file).version,
        ({
            let sessions = old(file).sessions.deep_view();
            if has_entry::<SessionEntry>(sessions, session_id@) {
                &&& r matches Ok(title) && title@ == session_stored(*old(file), session_id@).title
                &&& final(file).sessions.deep_view() == sessions.remove(
                    place_of::<SessionEntry>(sessions, session_id@),
                )
            } else {
                &&& answered(r) == Err::<(), Seq<char>>(session_missing(session_id@))
                &&& *final(file) == *old(file)
            }
        }),
{
    let ghost before = file.sessions.deep_view();
    let place: usize = find_place(&file.sessions, session_id);
    if place >= file.sessions.len() {
        return Err(joined("session not found in storage: ", session_id));
    }
    assert(before[place as int] == file.sessions@[place as int].deep_view());
    let removed = file.sessions.remove(place);
    assert(file.sessions.deep_view() =~= before.remove(place as int));
    Ok(removed.title)
}

// ---------------------------------------------------------------------------
// Projects
// ---------------------------------------------------------------------------

/// A short name for a directory: its own name, or the whole path where it has none.
pub open spec fn short_name(path: Seq<char>) -> Seq<char> {
    match file_name_of(path) {
        Some(name) => name,
        None => path,
    }
}

/// A short name for a directory.
pub fn short_project_path(path: &str) -> (r: String)
    ensures
        r@ == short_name(path@),
{
    match file_name(path) {
        Some(name) => name,
        None => path.to_owned(),
    }
}

/// Where the first project with this root stands; the length of the list where there is none.
pub open spec fn root_place(projects: Seq<ProjectEntryView>, root: Seq<char>) -> int
    decreases projects.len(),
{
    if projects.len() == 0 {
        0
    } else if projects[0].root_path == root {
        0
    } else {
        1 + root_place(projects.skip(1), root)
    }
}

/// Some project has this root.
pub open spec fn has_root(projects: Seq<ProjectEntryView>, root: Seq<char>) -> bool {
    root_place(projects, root) < projects.len()
}

/// The place of a root is where a project has it and none before does.
pub proof fn lemma_root_place(projects: Seq<ProjectEntryView>, root: Seq<char>)
    ensures
        0 <= root_place(projects, root) <= projects.len(),
        has_root(projects, root) ==> projects[root_place(projects, root)].root_path == root,
        forall|i: int|
            0 <= i < root_place(projects, root) ==> (#[trigger] projects[i]).root_path != root,
    decreases projects.len(),
{
    if projects.len() > 0 && projects[0].root_path != root {
        let rest = projects.skip(1);
        lemma_root_place(rest, root);
        assert forall|i: int| 0 <= i < root_place(projects, root) implies (
        #[trigger] projects[i]).root_path != root by {
            if i > 0 {
                assert(rest[i - 1] == projects[i]);
            }
        }
    }
}

fn find_root(projects: &Vec<ProjectEntry>, root: &str) -> (r: usize)
    ensures
        r == root_place(projects.deep_view(), root@),
        r <= projects@.len(),
{
    let ghost all = projects.deep_view();
    let mut i: usize = 0;
    assert(all.skip(0) =~= all);
    while i < projects.len()
        invariant
            i <= projects@.len(),
            all == projects.deep_view(),
            root_place(all, root@) == i + root_place(all.skip(i as int), root@),
        decreases projects@.len() - i,
    {
        assert(all.skip(i as int)[0] == projects@[i as int].deep_view());
        assert(all.skip(i as int).skip(1) =~= all.skip(i + 1));
        if same_text(projects[i].root_path.as_str(), root) {
            return i;
        }
        i = i + 1;
    }
    i
}

/// A project as it is when it is made.
pub open spec fn new_project(
    id: Seq<char>,
    name: Seq<char>,
    root: Seq<char>,
    now: Seq<char>,
) -> ProjectEntryView {
    ProjectEntryView { id, name, root_path: root, created_at: now, last_active_at: now }
}

/// Adds a project for a root, and gives back its name; the root's own name, or a fixed one where
/// that is empty. Where a project has the root, nothing is added and its name is the error.
pub fn sidebar_create_project_with_root_path(file: &mut ProjectsFile, root: &str, id: &str, now: &str) -> (r: Result<
    String,
    String,
>)
    ensures
        final(file).version == old(file).version,
        ({
            let projects = old(file).projects.deep_view();
            let name = if short_name(root@).len() == 0 {
                "project"@
            } else {
                short_name(root@)
            };
            if has_root(projects, root@) {
                &&& r matches Err(known) && known@ == projects[root_place(projects, root@)].name
                &&& *final(file) == *old(file)
            } else {
                &&& r matches Ok(given) && given@ == name
                &&& final(file).projects.deep_view() == projects.push(
                    new_project(id@, name, root@, now@),
                )
            }
        }),
{
    let ghost before = file.projects.deep_view();
    let place: usize = find_root(&file.projects, root);
    if place < file.projects.len() {
        assert(before[place as int] == file.projects@[place as int].deep_view());
        return Err(file.projects[place].name.clone());
    }
    let short = short_project_path(root);
    let name = if is_empty(short.as_str()) {
        "project".to_owned()
    } else {
        short
    };
    let project = ProjectEntry {
        id: id.to_owned(),
        name: name.clone(),
        root_path: root.to_owned(),
        created_at: now.to_owned(),
        last_active_at: now.to_owned(),
    };
    file.projects.push(project);
    assert(file.projects.deep_view() =~= before.push(project.deep_view()));
    Ok(name)
}

/// What became of a project that was made sure of.
#[derive(Debug, PartialEq, Eq)]
pub enum EnsuredProject {
    /// It was there, and nothing was changed.
    Found { id: String },
    /// It was there, and its last activity was filled in.
    Touched { id: String },
    /// It was added.
    Added { id: String },
}

/// Makes sure that a project has this root: one is added where none has it, and where one has it
/// its last activity is filled in if it is missing.
pub fn ensure_sidebar_project_for_cwd(file: &mut ProjectsFile, root: &str, new_id: &str, now: &str) -> (r:
    EnsuredProject)
    ensures
        final(file).version == old(file).version,
        ({
            let projects = old(file).projects.deep_view();
            let place = root_place(projects, root@);
            if !has_root(projects, root@) {
                &&& r matches EnsuredProject::Added { id } && id@ == new_id@
                &&& final(file).projects.deep_view() == projects.push(
                    new_project(new_id@, short_name(root@), root@, now@),
                )
            } else if projects[place].last_active_at.len() == 0 {
                &&& r matches EnsuredProject::Touched { id } && id@ == projects[place].id
                &&& final(file).projects.deep_view() == projects.update(
                    place,
                    ProjectEntryView { last_active_at: now@, ..projects[place] },
                )
            } else {
                &&& r matches EnsuredProject::Found { id } && id@ == projects[place].id
                &&& *final(file) == *old(file)
            }
        }),
{
    let ghost before = file.projects.deep_view();
    let place: usize = find_root(&file.projects, root);
    if place < file.projects.len() {
        assert(before[place as int] == file.projects@[place as int].deep_view());
        let mut project = file.projects[place].clone();
        let id = project.id.clone();
        if is_empty(project.last_active_at.as_str()) {
            project.last_active_at = now.to_owned();
            let ghost changed = project.deep_view();
            file.projects.set(place, project);
            assert(file.projects.deep_view() =~= before.update(place as int, changed));
            return EnsuredProject::Touched { id };
        }
        return EnsuredProject::Found { id };
    }
    let project = ProjectEntry {
        id: new_id.to_owned(),
        name: short_project_path(root),
        root_path: root.to_owned(),
        created_at: now.to_owned(),
        last_active_at: now.to_owned(),
    };
    file.projects.push(project);
    assert(file.projects.deep_view() =~= before.push(project.deep_view()));
    EnsuredProject::Added { id: new_id.to_owned() }
}

/// What is said of an id that no stored project has.
pub open spec fn project_missing(id: Seq<char>) -> Seq<char> {
    "project not found in storage: "@ + id
}

/// Renames a stored project to the trimmed title, and gives it back. A blank title is an error.
pub fn sidebar_rename_project(
    file: &mut ProjectsFile,
    project_id: &str,
    title: &str,
    now: &str,
) -> (r: Result<String, String>)
    ensures
        final(file).version == old(file).version,
        ({
            let projects = old(file).projects.deep_view();
            let place = place_of::<ProjectEntry>(projects, project_id@);
            if trimmed(title@).len() == 0 {
                &&& answered(r) == Err::<(), Seq<char>>("project title cannot be empty"@)
                &&& *final(file) == *old(file)
            } else if !has_entry::<ProjectEntry>(projects, project_id@) {
                &&& answered(r) == Err::<(), Seq<char>>(project_missing(project_id@))
                &&& *final(file) == *old(file)
            } else {
                &&& r matches Ok(set) && set@ == trimmed(title@)
                &&& final(file).projects.deep_view() == projects.update(
                    place,
                    ProjectEntryView {
                        name: trimmed(title@),
                        last_active_at: now@,
                        ..projects[place]
                    },
                )
            }
        }),
{
    let title = trim(title);
    if is_empty(title.as_str()) {
        return Err("project title cannot be empty".to_owned());
    }
    let ghost before = file.projects.deep_view();
    let place: usize = find_place(&file.projects, project_id);
    if place >= file.projects.len() {
        return Err(joined("project not found in storage: ", project_id));
    }
    assert(before[place as int] == file.projects@[place as int].deep_view());
    let mut project = file.projects[place].clone();
    project.name = title.clone();
    project.last_active_at = now.to_owned();
    let ghost changed = project.deep_view();
    file.projects.set(place, project);
    assert(file.projects.deep_view() =~= before.update(place as int, changed));
    Ok(title)
}

/// Notes when a project was last active; nothing happens where it is not stored.
pub fn sidebar_touch_project_last_active(
    file: &mut ProjectsFile,
    project_id: &str,
    last_active_at: &str,
)
    ensures
        final(file).version == old(file).version,
        ({
            let projects = old(file).projects.deep_view();
            let place = place_of::<ProjectEntry>(projects, project_id@);
            final(file).projects.deep_view() == if has_entry::<ProjectEntry>(
                projects,
                project_id@,
            ) {
                projects.update(
                    place,
                    ProjectEntryView { last_active_at: last_active_at@, ..projects[place] },
                )
            } else {
                projects
            }
        }),
{
    let ghost before = file.projects.deep_view();
    let place: usize = find_place(&file.projects, project_id);
    if place < file.projects.len() {
        assert(before[place as int] == file.projects@[place as int].deep_view());
        let mut project = file.projects[place].clone();
        project.last_active_at = last_active_at.to_owned();
        let ghost changed = project.deep_view();
        file.projects.set(place, project);
        assert(file.projects.deep_view() =~= before.update(place as int, changed));
    }
}

/// Deletes a stored project, and gives back its name.
pub fn sidebar_delete_project(file: &mut ProjectsFile, project_id: &str) -> (r: Result<
    String,
    String,
>)
    ensures
        final(file).version == old(file).version,
        ({
            let projects = old(file).projects.deep_view();
            let place = place_of::<ProjectEntry>(projects, project_id@);
            if has_entry::<ProjectEntry>(projects, project_id@) {
                &&& r matches Ok(name) && name@ == projects[place].name
                &&& final(file).projects.deep_view() == projects.remove(place)
            } else {
                &&& answered(r) == Err::<(), Seq<char>>(project_missing(project_id@))
                &&& *final(file) == *old(file)
            }
        }),
{
    let ghost before = file.projects.deep_view();
    let place: usize = find_place(&file.projects, project_id);
    if place >= file.projects.len() {
        return Err(joined("project not found in storage: ", project_id));
    }
    assert(before[place as int] == file.projects@[place as int].deep_view());
    let removed = file.projects.remove(place);
    assert(file.projects.deep_view() =~= before.remove(place as int));
    Ok(removed.name)
}

} // verus!
