//! Which project and which session a tab belongs to, judged by its directory and title.
use vstd::prelude::*;

use crate::order::{
    is_before, law_text_order_total, law_text_order_transitive, text_before,
};
use crate::paths::{depth, depth_of, is_under, lies_under};
use crate::sidebar::model::{
    seen_project, seen_session, ProjectView, SessionView, WorkspaceSidebarProject,
    WorkspaceSidebarSession,
};
use crate::sidebar::status::{
    current_moment, is_stale_transient_session_status, out_of_date, under_way, Timestamp,
};
use crate::agent_status::events::SessionStatus;
use crate::text::{holds, is_empty, joined, same_text, trim, trimmed};

verus! {

// ---------------------------------------------------------------------------
// Projects
// ---------------------------------------------------------------------------

/// The project with the deepest root that the directory lies under; of several equally deep ones,
/// the last.
pub open spec fn deepest_project(projects: Seq<ProjectView>, cwd: Seq<char>) -> Option<ProjectView>
    decreases projects.len(),
{
    if projects.len() == 0 {
        None
    } else {
        let best = deepest_project(projects.drop_last(), cwd);
        let last = projects.last();
        if lies_under(cwd, last.root_path) && (best is None || depth_of(best->0.root_path)
            <= depth_of(last.root_path)) {
            Some(last)
        } else {
            best
        }
    }
}

/// The project with the deepest root that the directory lies under.
pub fn pick_project_for_cwd<'a>(projects: &'a Vec<WorkspaceSidebarProject>, cwd: &str) -> (r: Option<
    &'a WorkspaceSidebarProject,
>)
    ensures
        seen_project(r) == deepest_project(projects.deep_view(), cwd@),
{
    let ghost all = projects.deep_view();
    let mut best: Option<&'a WorkspaceSidebarProject> = None;
    let mut i: usize = 0;
    while i < projects.len()
        invariant
            i <= projects@.len(),
            all == projects.deep_view(),
            seen_project(best) == deepest_project(all.take(i as int), cwd@),
        decreases projects@.len() - i,
    {
        proof {
            assert(all.take(i + 1).drop_last() =~= all.take(i as int));
            assert(all.take(i + 1).last() == projects@[i as int].deep_view());
        }
        let project = &projects[i];
        if is_under(cwd, project.root_path.as_str()) {
            let deeper = match best {
                Some(known) => depth(known.root_path.as_str()) <= depth(
                    project.root_path.as_str(),
                ),
                None => true,
            };
            if deeper {
                best = Some(project);
            }
        }
        i = i + 1;
    }
    assert(all.take(i as int) =~= all);
    best
}

/// A project is picked exactly where the directory lies under some root; no root that it lies under
/// is deeper than the picked one, and none that comes later in the list is as deep.
pub proof fn law_deepest_project(projects: Seq<ProjectView>, cwd: Seq<char>)
    ensures
        deepest_project(projects, cwd) is Some <==> exists|i: int|
            0 <= i < projects.len() && lies_under(cwd, #[trigger] projects[i].root_path),
        deepest_project(projects, cwd) matches Some(best) ==> exists|i: int|
            0 <= i < projects.len() && #[trigger] projects[i] == best && lies_under(
                cwd,
                best.root_path,
            ) && (forall|j: int|
                0 <= j < projects.len() && lies_under(cwd, #[trigger] projects[j].root_path)
                    ==> depth_of(projects[j].root_path) <= depth_of(best.root_path) && (j > i
                    ==> depth_of(projects[j].root_path) < depth_of(best.root_path))),
    decreases projects.len(),
{
    if projects.len() > 0 {
        let head = projects.drop_last();
        let n = projects.len() - 1;
        law_deepest_project(head, cwd);
        let best = deepest_project(projects, cwd);
        if deepest_project(head, cwd) is Some {
            let i = choose|i: int|
                0 <= i < head.len() && #[trigger] head[i] == deepest_project(head, cwd)->0
                    && lies_under(cwd, deepest_project(head, cwd)->0.root_path) && (forall|j: int|
                    0 <= j < head.len() && lies_under(cwd, #[trigger] head[j].root_path)
                        ==> depth_of(head[j].root_path) <= depth_of(
                        deepest_project(head, cwd)->0.root_path,
                    ) && (j > i ==> depth_of(head[j].root_path) < depth_of(
                        deepest_project(head, cwd)->0.root_path,
                    )));
            assert(projects[i] == head[i]);
            assert(lies_under(cwd, projects[i].root_path));
            assert forall|j: int|
                0 <= j < projects.len() && lies_under(cwd, #[trigger] projects[j].root_path)
                    implies depth_of(projects[j].root_path) <= depth_of(best->0.root_path) by {
                if j < n {
                    assert(head[j] == projects[j]);
                }
            }
            if best == deepest_project(head, cwd) && !(best == Some(projects[n]) && lies_under(
                cwd,
                projects[n].root_path,
            ) && depth_of(head[i].root_path) <= depth_of(projects[n].root_path)) {
                assert forall|j: int|
                    0 <= j < projects.len() && j > i && lies_under(
                        cwd,
                        #[trigger] projects[j].root_path,
                    ) implies depth_of(projects[j].root_path) < depth_of(best->0.root_path) by {
                    if j < n {
                        assert(head[j] == projects[j]);
                    }
                }
                assert(projects[i] == best->0);
            } else {
                assert(projects[n] == best->0);
            }
        } else {
            assert forall|j: int| 0 <= j < n implies !lies_under(
                cwd,
                #[trigger] projects[j].root_path,
            ) by {
                assert(head[j] == projects[j]);
                assert(!lies_under(cwd, head[j].root_path));
            }
            if lies_under(cwd, projects[n].root_path) {
                assert(projects[n] == best->0);
            }
        }
    }
}

// ---------------------------------------------------------------------------
// Sessions
// ---------------------------------------------------------------------------

/// The name under which a session's tab is kept.
pub open spec fn binding_key(project_id: Seq<char>, session_id: Seq<char>) -> Seq<char> {
    project_id + "::"@ + session_id
}

/// The name under which a session's tab is kept.
pub fn sidebar_session_key(project_id: &str, session_id: &str) -> (r: String)
    ensures
        r@ == binding_key(project_id@, session_id@),
{
    joined(joined(project_id, "::").as_str(), session_id)
}

/// The sessions without a tab, in order.
pub open spec fn unbound(
    sessions: Seq<SessionView>,
    project_id: Seq<char>,
    bound: Seq<Seq<char>>,
) -> Seq<SessionView>
    decreases sessions.len(),
{
    if sessions.len() == 0 {
        Seq::empty()
    } else if bound.contains(binding_key(project_id, sessions.last().id)) {
        unbound(sessions.drop_last(), project_id, bound)
    } else {
        unbound(sessions.drop_last(), project_id, bound).push(sessions.last())
    }
}

/// The sessions to choose from: those without a tab, or all where every one has a tab.
pub open spec fn candidates(project: ProjectView, bound: Seq<Seq<char>>) -> Seq<SessionView> {
    let free = unbound(project.sessions, project.id, bound);
    if free.len() == 0 {
        project.sessions
    } else {
        free
    }
}

/// The first session with this title.
pub open spec fn first_titled(sessions: Seq<SessionView>, title: Seq<char>) -> Option<SessionView>
    decreases sessions.len(),
{
    if sessions.len() == 0 {
        None
    } else if sessions[0].title == title {
        Some(sessions[0])
    } else {
        first_titled(sessions.skip(1), title)
    }
}

/// The session has a task under way that is not out of date.
pub open spec fn active_now(session: SessionView, now: Timestamp) -> bool {
    under_way(session.status) && !out_of_date(session.status, session.updated_at, now)
}

/// The first session with a task under way.
pub open spec fn first_active(sessions: Seq<SessionView>, now: Timestamp) -> Option<SessionView>
    decreases sessions.len(),
{
    if sessions.len() == 0 {
        None
    } else if active_now(sessions[0], now) {
        Some(sessions[0])
    } else {
        first_active(sessions.skip(1), now)
    }
}

/// The sessions whose status is not out of date, in order.
pub open spec fn up_to_date(sessions: Seq<SessionView>, now: Timestamp) -> Seq<SessionView>
    decreases sessions.len(),
{
    if sessions.len() == 0 {
        Seq::empty()
    } else if out_of_date(sessions.last().status, sessions.last().updated_at, now) {
        up_to_date(sessions.drop_last(), now)
    } else {
        up_to_date(sessions.drop_last(), now).push(sessions.last())
    }
}

/// The session that changed last, by its text; of several, the last.
pub open spec fn latest(sessions: Seq<SessionView>) -> Option<SessionView>
    decreases sessions.len(),
{
    if sessions.len() == 0 {
        None
    } else {
        let best = latest(sessions.drop_last());
        if best is Some && text_before(sessions.last().updated_at, best->0.updated_at) {
            best
        } else {
            Some(sessions.last())
        }
    }
}

/// The session of a project that a tab belongs to: of the candidates the one with the tab's title,
/// or the only one, or one with a task under way, or else the one that changed last, preferably
/// one whose status is not out of date.
pub open spec fn session_for_tab(
    project: ProjectView,
    bound: Seq<Seq<char>>,
    tab_title: Seq<char>,
    now: Timestamp,
) -> Option<SessionView> {
    let among = candidates(project, bound);
    let title = trimmed(tab_title);
    if among.len() == 0 {
        None
    } else if title.len() > 0 && first_titled(among, title) is Some {
        first_titled(among, title)
    } else if among.len() == 1 {
        Some(among[0])
    } else if first_active(among, now) is Some {
        first_active(among, now)
    } else if up_to_date(among, now).len() > 0 {
        latest(up_to_date(among, now))
    } else {
        latest(among)
    }
}

/// What is seen of sessions through references.
pub open spec fn seen_all(sessions: Seq<&WorkspaceSidebarSession>) -> Seq<SessionView> {
    Seq::new(sessions.len(), |i: int| sessions[i].deep_view())
}

fn collect_candidates<'a>(project: &'a WorkspaceSidebarProject, bound: &Vec<String>) -> (r: Vec<
    &'a WorkspaceSidebarSession,
>)
    ensures
        seen_all(r@) == candidates(project.deep_view(), bound.deep_view()),
{
    let ghost all = project.sessions.deep_view();
    let mut free: Vec<&'a WorkspaceSidebarSession> = Vec::new();
    let mut every: Vec<&'a WorkspaceSidebarSession> = Vec::new();
    let mut i: usize = 0;
    assert(seen_all(free@) =~= unbound(all.take(0), project.id@, bound.deep_view()));
    while i < project.sessions.len()
        invariant
            i <= project.sessions@.len(),
            all == project.sessions.deep_view(),
            seen_all(every@) == all.take(i as int),
            seen_all(free@) == unbound(all.take(i as int), project.id@, bound.deep_view()),
        decreases project.sessions@.len() - i,
    {
        let session = &project.sessions[i];
        let ghost before = free@;
        let ghost before_all = every@;
        proof {
            assert(all.take(i + 1).drop_last() =~= all.take(i as int));
            assert(all.take(i + 1).last() == session.deep_view());
        }
        let key = sidebar_session_key(project.id.as_str(), session.id.as_str());
        if !holds(bound, key.as_str()) {
            free.push(session);
            assert(seen_all(free@) =~= seen_all(before).push(session.deep_view()));
        }
        every.push(session);
        assert(seen_all(every@) =~= seen_all(before_all).push(session.deep_view()));
        assert(all.take(i + 1) =~= all.take(i as int).push(session.deep_view()));
        i = i + 1;
    }
    assert(all.take(i as int) =~= all);
    assert(seen_all(free@).len() == free@.len());
    if free.len() == 0 {
        every
    } else {
        free
    }
}

fn find_titled<'a>(sessions: &Vec<&'a WorkspaceSidebarSession>, title: &str) -> (r: Option<
    &'a WorkspaceSidebarSession,
>)
    ensures
        seen_session(r) == first_titled(seen_all(sessions@), title@),
{
    let ghost all = seen_all(sessions@);
    let mut i: usize = 0;
    assert(all.skip(0) =~= all);
    while i < sessions.len()
        invariant
            i <= sessions@.len(),
            all == seen_all(sessions@),
            first_titled(all, title@) == first_titled(all.skip(i as int), title@),
        decreases sessions@.len() - i,
    {
        assert(all.skip(i as int)[0] == sessions@[i as int].deep_view());
        assert(all.skip(i as int).skip(1) =~= all.skip(i + 1));
        if same_text(sessions[i].title.as_str(), title) {
            return Some(sessions[i]);
        }
        i = i + 1;
    }
    None
}

fn is_active_now(session: &WorkspaceSidebarSession, now: Timestamp) -> (r: bool)
    ensures
        r == active_now(session.deep_view(), now),
{
    let transient = match SessionStatus::parse_storage(session.status.as_str()) {
        Some(known) => known.is_transient(),
        None => false,
    };
    transient && !is_stale_transient_session_status(
        session.status.as_str(),
        session.updated_at.as_str(),
        now,
    )
}

fn find_active<'a>(sessions: &Vec<&'a WorkspaceSidebarSession>, now: Timestamp) -> (r: Option<
    &'a WorkspaceSidebarSession,
>)
    ensures
        seen_session(r) == first_active(seen_all(sessions@), now),
{
    let ghost all = seen_all(sessions@);
    let mut i: usize = 0;
    assert(all.skip(0) =~= all);
    while i < sessions.len()
        invariant
            i <= sessions@.len(),
            all == seen_all(sessions@),
            first_active(all, now) == first_active(all.skip(i as int), now),
        decreases sessions@.len() - i,
    {
        assert(all.skip(i as int)[0] == sessions@[i as int].deep_view());
        assert(all.skip(i as int).skip(1) =~= all.skip(i + 1));
        if is_active_now(sessions[i], now) {
            return Some(sessions[i]);
        }
        i = i + 1;
    }
    None
}

fn keep_up_to_date<'a>(sessions: &Vec<&'a WorkspaceSidebarSession>, now: Timestamp) -> (r: Vec<
    &'a WorkspaceSidebarSession,
>)
    ensures
        seen_all(r@) == up_to_date(seen_all(sessions@), now),
{
    let ghost all = seen_all(sessions@);
    let mut kept: Vec<&'a WorkspaceSidebarSession> = Vec::new();
    let mut i: usize = 0;
    assert(seen_all(kept@) =~= up_to_date(all.take(0), now));
    while i < sessions.len()
        invariant
            i <= sessions@.len(),
            all == seen_all(sessions@),
            seen_all(kept@) == up_to_date(all.take(i as int), now),
        decreases sessions@.len() - i,
    {
        let session = sessions[i];
        let ghost before = kept@;
        proof {
            assert(all.take(i + 1).drop_last() =~= all.take(i as int));
            assert(all.take(i + 1).last() == session.deep_view());
        }
        if !is_stale_transient_session_status(
            session.status.as_str(),
            session.updated_at.as_str(),
            now,
        ) {
            kept.push(session);
            assert(seen_all(kept@) =~= seen_all(before).push(session.deep_view()));
        }
        i = i + 1;
    }
    assert(all.take(i as int) =~= all);
    kept
}

fn find_latest<'a>(sessions: &Vec<&'a WorkspaceSidebarSession>) -> (r: Option<
    &'a WorkspaceSidebarSession,
>)
    ensures
        seen_session(r) == latest(seen_all(sessions@)),
{
    let ghost all = seen_all(sessions@);
    let mut best: Option<&'a WorkspaceSidebarSession> = None;
    let mut i: usize = 0;
    while i < sessions.len()
        invariant
            i <= sessions@.len(),
            all == seen_all(sessions@),
            seen_session(best) == latest(all.take(i as int)),
        decreases sessions@.len() - i,
    {
        let session = sessions[i];
        proof {
            assert(all.take(i + 1).drop_last() =~= all.take(i as int));
            assert(all.take(i + 1).last() == session.deep_view());
        }
        let older = match best {
            Some(known) => is_before(session.updated_at.as_str(), known.updated_at.as_str()),
            None => false,
        };
        if !older {
            best = Some(session);
        }
        i = i + 1;
    }
    assert(all.take(i as int) =~= all);
    best
}

/// The session of a project that a tab belongs to, judged at a given moment.
pub fn pick_session_at<'a>(
    project: &'a WorkspaceSidebarProject,
    bound_session_keys: &Vec<String>,
    tab_title: &str,
    now: Timestamp,
) -> (r: Option<&'a WorkspaceSidebarSession>)
    ensures
        seen_session(r) == session_for_tab(
            project.deep_view(),
            bound_session_keys.deep_view(),
            tab_title@,
            now,
        ),
{
    let among = collect_candidates(project, bound_session_keys);
    let ghost seen = seen_all(among@);
    assert(seen.len() == among@.len());
    if among.len() == 0 {
        return None;
    }
    let title = trim(tab_title);
    if !is_empty(title.as_str()) {
        let titled = find_titled(&among, title.as_str());
        if titled.is_some() {
            return titled;
        }
    }
    if among.len() == 1 {
        assert(seen[0] == among@[0].deep_view());
        return Some(among[0]);
    }
    let active = find_active(&among, now);
    if active.is_some() {
        return active;
    }
    let fresh = keep_up_to_date(&among, now);
    assert(seen_all(fresh@).len() == fresh@.len());
    if fresh.len() == 0 {
        find_latest(&among)
    } else {
        find_latest(&fresh)
    }
}

/// The session of a project that a tab belongs to, judged by the machine's clock.
pub fn pick_session_for_inferred_binding<'a>(
    project: &'a WorkspaceSidebarProject,
    bound_session_keys: &Vec<String>,
    tab_title: &str,
) -> (r: Option<&'a WorkspaceSidebarSession>)
    ensures
        exists|now: Timestamp|
            seen_session(r) == #[trigger] session_for_tab(
                project.deep_view(),
                bound_session_keys.deep_view(),
                tab_title@,
                now,
            ),
        r is None <==> project.sessions@.len() == 0,
{
    let now = current_moment();
    let r = pick_session_at(project, bound_session_keys, tab_title, now);
    proof {
        law_session_is_picked(
            project.deep_view(),
            bound_session_keys.deep_view(),
            tab_title@,
            now,
        );
        assert(seen_session(r) == session_for_tab(
            project.deep_view(),
            bound_session_keys.deep_view(),
            tab_title@,
            now,
        ));
    }
    r
}

proof fn lemma_unbound_from(
    sessions: Seq<SessionView>,
    project_id: Seq<char>,
    bound: Seq<Seq<char>>,
    i: int,
)
    requires
        0 <= i < unbound(sessions, project_id, bound).len(),
    ensures
        sessions.contains(unbound(sessions, project_id, bound)[i]),
        !bound.contains(binding_key(project_id, unbound(sessions, project_id, bound)[i].id)),
    decreases sessions.len(),
{
    let head = sessions.drop_last();
    let part = unbound(head, project_id, bound);
    if i < part.len() {
        lemma_unbound_from(head, project_id, bound, i);
        let k = choose|k: int| 0 <= k < head.len() && head[k] == part[i];
        assert(sessions[k] == part[i]);
    } else {
        assert(sessions[sessions.len() - 1] == unbound(sessions, project_id, bound)[i]);
    }
}

proof fn lemma_first_titled(sessions: Seq<SessionView>, title: Seq<char>)
    ensures
        first_titled(sessions, title) matches Some(s) ==> sessions.contains(s) && s.title == title,
    decreases sessions.len(),
{
    if sessions.len() > 0 {
        lemma_first_titled(sessions.skip(1), title);
        if first_titled(sessions, title) is Some && sessions[0].title != title {
            let s = first_titled(sessions, title)->0;
            let k = choose|k: int| 0 <= k < sessions.skip(1).len() && sessions.skip(1)[k] == s;
            assert(sessions[k + 1] == s);
        } else if sessions[0].title == title {
            assert(sessions.contains(sessions[0]));
        }
    }
}

proof fn lemma_first_active(sessions: Seq<SessionView>, now: Timestamp)
    ensures
        first_active(sessions, now) matches Some(s) ==> sessions.contains(s) && active_now(s, now),
    decreases sessions.len(),
{
    if sessions.len() > 0 {
        lemma_first_active(sessions.skip(1), now);
        if first_active(sessions, now) is Some && !active_now(sessions[0], now) {
            let s = first_active(sessions, now)->0;
            let k = choose|k: int| 0 <= k < sessions.skip(1).len() && sessions.skip(1)[k] == s;
            assert(sessions[k + 1] == s);
        } else if active_now(sessions[0], now) {
            assert(sessions.contains(sessions[0]));
        }
    }
}

proof fn lemma_up_to_date_from(sessions: Seq<SessionView>, now: Timestamp, i: int)
    requires
        0 <= i < up_to_date(sessions, now).len(),
    ensures
        sessions.contains(up_to_date(sessions, now)[i]),
    decreases sessions.len(),
{
    let head = sessions.drop_last();
    let part = up_to_date(head, now);
    if i < part.len() {
        lemma_up_to_date_from(head, now, i);
        let k = choose|k: int| 0 <= k < head.len() && head[k] == part[i];
        assert(sessions[k] == part[i]);
    } else {
        assert(sessions[sessions.len() - 1] == up_to_date(sessions, now)[i]);
    }
}

/// The session that changed last is one of the sessions, and none has a later text.
pub proof fn law_latest_is_last(sessions: Seq<SessionView>)
    ensures
        latest(sessions) is Some <==> sessions.len() > 0,
        latest(sessions) matches Some(best) ==> sessions.contains(best) && forall|i: int|
            0 <= i < sessions.len() ==> !text_before(
                best.updated_at,
                (#[trigger] sessions[i]).updated_at,
            ),
    decreases sessions.len(),
{
    if sessions.len() > 0 {
        let head = sessions.drop_last();
        let last = sessions.last();
        law_latest_is_last(head);
        let best = latest(sessions)->0;
        assert(sessions[sessions.len() - 1] == last);
        law_text_order_total(last.updated_at, last.updated_at);
        if latest(head) is Some {
            let known = latest(head)->0;
            let k = choose|k: int| 0 <= k < head.len() && head[k] == known;
            assert(sessions[k] == known);
            law_text_order_total(last.updated_at, known.updated_at);
            assert forall|i: int| 0 <= i < sessions.len() implies !text_before(
                best.updated_at,
                (#[trigger] sessions[i]).updated_at,
            ) by {
                if i < head.len() {
                    assert(head[i] == sessions[i]);
                    if best == last && !text_before(last.updated_at, known.updated_at)
                        && text_before(last.updated_at, sessions[i].updated_at) {
                        if last.updated_at != known.updated_at {
                            law_text_order_transitive(
                                known.updated_at,
                                last.updated_at,
                                sessions[i].updated_at,
                            );
                        }
                    }
                }
            }
        }
    }
}

/// A tab gets a session of its project wherever the project has one; while some session has no tab,
/// it gets one without a tab.
pub proof fn law_session_is_picked(
    project: ProjectView,
    bound: Seq<Seq<char>>,
    tab_title: Seq<char>,
    now: Timestamp,
)
    ensures
        session_for_tab(project, bound, tab_title, now) is Some <==> project.sessions.len() > 0,
        session_for_tab(project, bound, tab_title, now) matches Some(picked)
            ==> project.sessions.contains(picked),
        unbound(project.sessions, project.id, bound).len() > 0 ==> (session_for_tab(
            project,
            bound,
            tab_title,
            now,
        ) matches Some(picked) ==> !bound.contains(binding_key(project.id, picked.id))),
{
    let among = candidates(project, bound);
    let free = unbound(project.sessions, project.id, bound);
    let title = trimmed(tab_title);
    if free.len() > 0 {
        lemma_unbound_from(project.sessions, project.id, bound, 0);
    }
    lemma_first_titled(among, title);
    lemma_first_active(among, now);
    law_latest_is_last(among);
    law_latest_is_last(up_to_date(among, now));
    let picked = session_for_tab(project, bound, tab_title, now);
    if picked is Some {
        assert(among.contains(picked->0)) by {
            let fresh = up_to_date(among, now);
            if fresh.contains(picked->0) {
                let k = choose|k: int| 0 <= k < fresh.len() && fresh[k] == picked->0;
                lemma_up_to_date_from(among, now, k);
            } else if among.len() == 1 {
                assert(among.contains(among[0]));
            }
        }
        let k = choose|k: int| 0 <= k < among.len() && among[k] == picked->0;
        if free.len() > 0 {
            lemma_unbound_from(project.sessions, project.id, bound, k);
        }
    }
}

} // verus!
