//! Which session a tab is taken to belong to.
use vstd::prelude::*;

use crate::agent_status::events::{law_status_reads_back, SessionStatus};
use crate::order::text_before;
use crate::sidebar::infer::{infer_next, InferActionView, InferEventView};
use crate::sidebar::model::{project_with_id, ProjectView, SessionView};
use crate::sidebar::pick::{
    active_now, binding_key, candidates, deepest_project, first_active, first_titled, latest,
    law_latest_is_last, law_session_is_picked, session_for_tab, unbound, up_to_date,
};
use crate::sidebar::status::{out_of_date, Timestamp};
use crate::text::trimmed;

verus! {

/// The sessions that no tab is bound to are those whose key is not among the bound ones.
pub proof fn law_unbound_sessions(
    sessions: Seq<SessionView>,
    project_id: Seq<char>,
    bound: Seq<Seq<char>>,
    session: SessionView,
)
    ensures
        unbound(sessions, project_id, bound).contains(session) <==> sessions.contains(session)
            && !bound.contains(project_id + "::"@ + session.id),
        bound.len() == 0 ==> unbound(sessions, project_id, bound) == sessions,
    decreases sessions.len(),
{
    let free = unbound(sessions, project_id, bound);
    if sessions.len() > 0 {
        let head = sessions.drop_last();
        let before = unbound(head, project_id, bound);
        let last = sessions.last();
        law_unbound_sessions(head, project_id, bound, session);
        if free.contains(session) && !before.contains(session) {
            let at = choose|at: int| 0 <= at < free.len() && free[at] == session;
            if at < before.len() {
                assert(before[at] == session);
            }
            assert(sessions[sessions.len() - 1] == session);
        }
        if before.contains(session) {
            let at = choose|at: int| 0 <= at < before.len() && before[at] == session;
            assert(free[at] == session);
            let from = choose|from: int| 0 <= from < head.len() && head[from] == session;
            assert(sessions[from] == session);
        }
        if sessions.contains(session) {
            let at = choose|at: int| 0 <= at < sessions.len() && sessions[at] == session;
            if at < head.len() {
                assert(head[at] == session);
            } else if !bound.contains(binding_key(project_id, session.id)) {
                assert(free[before.len() as int] == session);
            }
        }
        if bound.len() == 0 {
            assert(!bound.contains(binding_key(project_id, last.id)));
            assert(head.push(last) =~= sessions);
        }
    }
}

proof fn lemma_first_titled(sessions: Seq<SessionView>, title: Seq<char>, k: int)
    ensures
        first_titled(sessions, title) matches Some(found) ==> found.title == title
            && sessions.contains(found),
        0 <= k < sessions.len() && sessions[k].title == title ==> first_titled(
            sessions,
            title,
        ) is Some,
    decreases sessions.len(),
{
    if sessions.len() > 0 {
        let rest = sessions.skip(1);
        lemma_first_titled(rest, title, k - 1);
        if sessions[0].title != title {
            if first_titled(rest, title) is Some {
                let at = choose|at: int|
                    0 <= at < rest.len() && rest[at] == first_titled(rest, title)->0;
                assert(sessions[at + 1] == rest[at]);
            }
            if 1 <= k < sessions.len() {
                assert(rest[k - 1] == sessions[k]);
            }
        } else {
            assert(sessions.contains(sessions[0]));
        }
    }
}

proof fn lemma_first_active(sessions: Seq<SessionView>, now: Timestamp, k: int)
    ensures
        first_active(sessions, now) matches Some(found) ==> active_now(found, now)
            && sessions.contains(found),
        0 <= k < sessions.len() && active_now(sessions[k], now) ==> first_active(
            sessions,
            now,
        ) is Some,
    decreases sessions.len(),
{
    if sessions.len() > 0 {
        let rest = sessions.skip(1);
        lemma_first_active(rest, now, k - 1);
        if !active_now(sessions[0], now) {
            if first_active(rest, now) is Some {
                let at = choose|at: int|
                    0 <= at < rest.len() && rest[at] == first_active(rest, now)->0;
                assert(sessions[at + 1] == rest[at]);
            }
            if 1 <= k < sessions.len() {
                assert(rest[k - 1] == sessions[k]);
            }
        } else {
            assert(sessions.contains(sessions[0]));
        }
    }
}

proof fn lemma_up_to_date(sessions: Seq<SessionView>, now: Timestamp, session: SessionView)
    ensures
        up_to_date(sessions, now).contains(session) <==> sessions.contains(session)
            && !out_of_date(session.status, session.updated_at, now),
    decreases sessions.len(),
{
    let kept = up_to_date(sessions, now);
    if sessions.len() > 0 {
        let head = sessions.drop_last();
        let before = up_to_date(head, now);
        lemma_up_to_date(head, now, session);
        if kept.contains(session) && !before.contains(session) {
            let at = choose|at: int| 0 <= at < kept.len() && kept[at] == session;
            if at < before.len() {
                assert(before[at] == session);
            }
            assert(sessions[sessions.len() - 1] == session);
        }
        if before.contains(session) {
            let at = choose|at: int| 0 <= at < before.len() && before[at] == session;
            assert(kept[at] == session);
            let from = choose|from: int| 0 <= from < head.len() && head[from] == session;
            assert(sessions[from] == session);
        }
        if sessions.contains(session) {
            let at = choose|at: int| 0 <= at < sessions.len() && sessions[at] == session;
            if at < head.len() {
                assert(head[at] == session);
            } else if !out_of_date(session.status, session.updated_at, now) {
                assert(kept[before.len() as int] == session);
            }
        }
    }
}

/// Among the sessions that a tab may take, those that no tab is bound to or all where every one is
/// bound, one with the tab's title comes first.
pub proof fn law_title_comes_first(
    project: ProjectView,
    bound: Seq<Seq<char>>,
    tab_title: Seq<char>,
    now: Timestamp,
    k: int,
)
    requires
        0 <= k < candidates(project, bound).len(),
        candidates(project, bound)[k].title == trimmed(tab_title),
        trimmed(tab_title).len() > 0,
    ensures
        session_for_tab(project, bound, tab_title, now) matches Some(picked) && picked.title
            == trimmed(tab_title),
{
    lemma_first_titled(candidates(project, bound), trimmed(tab_title), k);
}

/// Where no session has the tab's title, one that is under way comes before all others; and where
/// none is, the one that changed last among those that are not out of date.
pub proof fn law_active_then_latest(
    project: ProjectView,
    bound: Seq<Seq<char>>,
    tab_title: Seq<char>,
    now: Timestamp,
    k: int,
)
    requires
        0 <= k < candidates(project, bound).len(),
        forall|i: int|
            0 <= i < candidates(project, bound).len() ==> (
            #[trigger] candidates(project, bound)[i]).title != trimmed(tab_title),
    ensures
        active_now(candidates(project, bound)[k], now) ==> (session_for_tab(
            project,
            bound,
            tab_title,
            now,
        ) matches Some(picked) && active_now(picked, now)),
        (forall|i: int|
            0 <= i < candidates(project, bound).len() ==> !active_now(
                #[trigger] candidates(project, bound)[i],
                now,
            ) && !out_of_date(
                candidates(project, bound)[i].status,
                candidates(project, bound)[i].updated_at,
                now,
            )) ==> (session_for_tab(project, bound, tab_title, now) matches Some(picked)
            && !text_before(picked.updated_at, candidates(project, bound)[k].updated_at)),
{
    let among = candidates(project, bound);
    lemma_first_titled(among, trimmed(tab_title), 0);
    if first_titled(among, trimmed(tab_title)) is Some {
        let found = first_titled(among, trimmed(tab_title))->0;
        let at = choose|at: int| 0 <= at < among.len() && among[at] == found;
        assert(among[at].title == trimmed(tab_title));
    }
    lemma_first_active(among, now, k);
    if first_active(among, now) is Some {
        let found = first_active(among, now)->0;
        let at = choose|at: int| 0 <= at < among.len() && among[at] == found;
        assert(active_now(among[at], now));
    }
    lemma_up_to_date(among, now, among[k]);
    assert(among.contains(among[k]));
    law_latest_is_last(up_to_date(among, now));
    crate::order::law_text_order_total(among[k].updated_at, among[k].updated_at);
    let kept = up_to_date(among, now);
    if kept.contains(among[k]) {
        let at = choose|at: int| 0 <= at < kept.len() && kept[at] == among[k];
        assert(!text_before(latest(kept)->0.updated_at, kept[at].updated_at));
    }
}

/// A tab in a project's directory is bound to one of the project's sessions, where it has any, and
/// else a session is asked for; outside every project a project is asked for. What was asked for is
/// bound when it comes, and given up when it does not.
pub proof fn law_tabs_are_bound_where_they_are(
    projects: Seq<ProjectView>,
    cwd: Seq<char>,
    bound: Seq<Seq<char>>,
    tab_title: Seq<char>,
    now: Timestamp,
    project_id: Seq<char>,
    session_id: Seq<char>,
)
    ensures
        deepest_project(projects, cwd) is None ==> infer_next(
            InferEventView::Begin,
            projects,
            cwd,
            bound,
            tab_title,
            now,
        ) == InferActionView::EnsureProject,
        deepest_project(projects, cwd) matches Some(project) ==> {
            let next = infer_next(InferEventView::Begin, projects, cwd, bound, tab_title, now);
            &&& next matches InferActionView::Bind { project_id: p, session_id: s } ==> p
                == project.id
            &&& next matches InferActionView::EnsureSession { project_id: p } ==> p == project.id
            &&& next is Bind || next is EnsureSession
            &&& project_with_id(projects, project.id) == Some(project) ==> (next is Bind
                <==> project.sessions.len() > 0)
        },
        infer_next(
            InferEventView::SessionEnsured { project_id, session_id: Some(session_id) },
            projects,
            cwd,
            bound,
            tab_title,
            now,
        ) == (InferActionView::Bind { project_id, session_id }),
        infer_next(
            InferEventView::SessionEnsured { project_id, session_id: None },
            projects,
            cwd,
            bound,
            tab_title,
            now,
        ) == InferActionView::GiveUp,
        infer_next(
            InferEventView::ProjectEnsured(None),
            projects,
            cwd,
            bound,
            tab_title,
            now,
        ) == InferActionView::GiveUp,
        project_with_id(projects, project_id) is None ==> infer_next(
            InferEventView::ProjectEnsured(Some(project_id)),
            projects,
            cwd,
            bound,
            tab_title,
            now,
        ) == (InferActionView::EnsureSession { project_id }),
{
    if deepest_project(projects, cwd) is Some {
        let project = deepest_project(projects, cwd)->0;
        law_session_is_picked(project, bound, tab_title, now);
    }
}

/// A session is active while it is under way and its status is not out of date.
pub proof fn law_active_sessions(session: SessionView, status: SessionStatus, now: Timestamp)
    requires
        session.status == status.storage_text(),
    ensures
        active_now(session, now) <==> (status is Loading || status is Running
            || status is NeedApprove) && !out_of_date(session.status, session.updated_at, now),
{
    law_status_reads_back(status);
}

} // verus!
