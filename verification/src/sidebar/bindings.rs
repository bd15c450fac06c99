//! Which tab shows which session, and which sessions wait for their tab to open.
use vstd::prelude::*;

use crate::sidebar::labels::{session_pinned, sidebar_lookup_session_pinned};
use crate::sidebar::model::{
    find_project, find_session, project_with_id, session_in, ProjectView, SessionView,
    WorkspaceSidebarProject,
};
use crate::sidebar::pick::{binding_key, sidebar_session_key};
use crate::text::{holds, same_text};

verus! {

/// A tab and the session that it shows.
#[derive(Debug, PartialEq, Eq)]
pub struct TabBinding {
    pub tab_id: u64,
    pub project_id: String,
    pub session_id: String,
}

/// A [`TabBinding`] over sequences.
pub struct BindingView {
    pub tab_id: u64,
    pub project_id: Seq<char>,
    pub session_id: Seq<char>,
}

impl DeepView for TabBinding {
    type V = BindingView;

    open spec fn deep_view(&self) -> BindingView {
        BindingView {
            tab_id: self.tab_id,
            project_id: self.project_id@,
            session_id: self.session_id@,
        }
    }
}

/// A session that waits for its tab to open.
#[derive(Debug, PartialEq, Eq)]
pub struct WorkspaceSidebarPendingOpen {
    pub project_id: String,
    pub session_id: String,
    pub session_title: String,
}

/// A [`WorkspaceSidebarPendingOpen`] over sequences.
pub struct PendingOpenView {
    pub project_id: Seq<char>,
    pub session_id: Seq<char>,
    pub session_title: Seq<char>,
}

impl DeepView for WorkspaceSidebarPendingOpen {
    type V = PendingOpenView;

    open spec fn deep_view(&self) -> PendingOpenView {
        PendingOpenView {
            project_id: self.project_id@,
            session_id: self.session_id@,
            session_title: self.session_title@,
        }
    }
}

/// The name of the session that a tab shows.
pub open spec fn key_of(binding: BindingView) -> Seq<char> {
    binding_key(binding.project_id, binding.session_id)
}

/// Every tab shows one session, and every session is shown in one tab.
pub open spec fn one_to_one(bindings: Seq<BindingView>) -> bool {
    forall|i: int, j: int|
        0 <= i < j < bindings.len() ==> (#[trigger] bindings[i]).tab_id != (
        #[trigger] bindings[j]).tab_id && key_of(bindings[i]) != key_of(bindings[j])
}

/// The bindings that have neither this tab nor this session.
pub open spec fn without(bindings: Seq<BindingView>, tab_id: u64, key: Seq<char>) -> Seq<BindingView>
    decreases bindings.len(),
{
    if bindings.len() == 0 {
        Seq::empty()
    } else {
        let head = without(bindings.drop_last(), tab_id, key);
        let last = bindings.last();
        if last.tab_id == tab_id || key_of(last) == key {
            head
        } else {
            head.push(last)
        }
    }
}

/// The bindings after a tab was bound to a session: both are free of what they were bound to.
pub open spec fn bound_to(
    bindings: Seq<BindingView>,
    project_id: Seq<char>,
    session_id: Seq<char>,
    tab_id: u64,
) -> Seq<BindingView> {
    without(bindings, tab_id, binding_key(project_id, session_id)).push(
        BindingView { tab_id, project_id, session_id },
    )
}

/// The bindings without those of this tab.
pub open spec fn without_tab(bindings: Seq<BindingView>, tab_id: u64) -> Seq<BindingView>
    decreases bindings.len(),
{
    if bindings.len() == 0 {
        Seq::empty()
    } else {
        let head = without_tab(bindings.drop_last(), tab_id);
        if bindings.last().tab_id == tab_id {
            head
        } else {
            head.push(bindings.last())
        }
    }
}

/// The bindings without those of these tabs.
pub open spec fn without_tabs(bindings: Seq<BindingView>, tab_ids: Seq<u64>) -> Seq<BindingView>
    decreases tab_ids.len(),
{
    if tab_ids.len() == 0 {
        bindings
    } else {
        without_tab(without_tabs(bindings, tab_ids.drop_last()), tab_ids.last())
    }
}

/// The bindings of tabs that are still there.
pub open spec fn only_live(bindings: Seq<BindingView>, live: Seq<u64>) -> Seq<BindingView>
    decreases bindings.len(),
{
    if bindings.len() == 0 {
        Seq::empty()
    } else {
        let head = only_live(bindings.drop_last(), live);
        if live.contains(bindings.last().tab_id) {
            head.push(bindings.last())
        } else {
            head
        }
    }
}

/// The session that a tab shows.
pub open spec fn session_of(bindings: Seq<BindingView>, tab_id: u64) -> Option<
    (Seq<char>, Seq<char>),
>
    decreases bindings.len(),
{
    if bindings.len() == 0 {
        None
    } else if bindings.last().tab_id == tab_id {
        Some((bindings.last().project_id, bindings.last().session_id))
    } else {
        session_of(bindings.drop_last(), tab_id)
    }
}

/// The tab that shows a session.
pub open spec fn tab_of(bindings: Seq<BindingView>, key: Seq<char>) -> Option<u64>
    decreases bindings.len(),
{
    if bindings.len() == 0 {
        None
    } else if key_of(bindings.last()) == key {
        Some(bindings.last().tab_id)
    } else {
        tab_of(bindings.drop_last(), key)
    }
}

/// The names of the sessions that are shown in tabs.
pub open spec fn keys_of(bindings: Seq<BindingView>) -> Seq<Seq<char>> {
    Seq::new(bindings.len(), |i: int| key_of(bindings[i]))
}

/// The binding is of the project, its session is not pinned, and it is not the one to keep.
pub open spec fn closes(
    binding: BindingView,
    project_id: Seq<char>,
    keep: Option<Seq<char>>,
    pinned: Seq<Seq<char>>,
) -> bool {
    &&& binding.project_id == project_id
    &&& keep != Some(binding.session_id)
    &&& !pinned.contains(binding.session_id)
}

/// The tabs of a project's sessions that are neither pinned nor the one to keep.
pub open spec fn closable(
    bindings: Seq<BindingView>,
    project_id: Seq<char>,
    keep: Option<Seq<char>>,
    pinned: Seq<Seq<char>>,
) -> Seq<u64>
    decreases bindings.len(),
{
    if bindings.len() == 0 {
        Seq::empty()
    } else {
        let head = closable(bindings.drop_last(), project_id, keep, pinned);
        if closes(bindings.last(), project_id, keep, pinned) {
            head.push(bindings.last().tab_id)
        } else {
            head
        }
    }
}

/// The ids of a project's pinned sessions.
pub open spec fn pinned_ids(sessions: Seq<SessionView>) -> Seq<Seq<char>>
    decreases sessions.len(),
{
    if sessions.len() == 0 {
        Seq::empty()
    } else if sessions.last().pinned {
        pinned_ids(sessions.drop_last()).push(sessions.last().id)
    } else {
        pinned_ids(sessions.drop_last())
    }
}

/// The ids of a project's pinned sessions; none for a project that is not there.
pub open spec fn pinned_in(projects: Seq<ProjectView>, project_id: Seq<char>) -> Seq<Seq<char>> {
    match project_with_id(projects, project_id) {
        Some(project) => pinned_ids(project.sessions),
        None => Seq::empty(),
    }
}

/// The ids of a project's pinned sessions.
pub fn sidebar_pinned_sessions(projects: &Vec<WorkspaceSidebarProject>, project_id: &str) -> (r: Vec<
    String,
>)
    ensures
        r.deep_view() == pinned_in(projects.deep_view(), project_id@),
{
    let mut out: Vec<String> = Vec::new();
    match find_project(projects, project_id) {
        Some(project) => {
            let ghost all = project.sessions.deep_view();
            let mut i: usize = 0;
            assert(out.deep_view() =~= pinned_ids(all.take(0)));
            while i < project.sessions.len()
                invariant
                    i <= project.sessions@.len(),
                    all == project.sessions.deep_view(),
                    out.deep_view() == pinned_ids(all.take(i as int)),
                decreases project.sessions@.len() - i,
            {
                let session = &project.sessions[i];
                let ghost before = out.deep_view();
                proof {
                    assert(all.take(i + 1).drop_last() =~= all.take(i as int));
                    assert(all.take(i + 1).last() == session.deep_view());
                }
                if session.pinned {
                    out.push(session.id.clone());
                    assert(out.deep_view() =~= before.push(session.id@));
                }
                i = i + 1;
            }
            assert(all.take(i as int) =~= all);
        },
        None => {
            assert(out.deep_view() =~= Seq::<Seq<char>>::empty());
        },
    }
    out
}

/// The waiting sessions of other projects.
pub open spec fn other_projects(
    pending: Seq<PendingOpenView>,
    project_id: Seq<char>,
) -> Seq<PendingOpenView>
    decreases pending.len(),
{
    if pending.len() == 0 {
        Seq::empty()
    } else if pending.last().project_id == project_id {
        other_projects(pending.drop_last(), project_id)
    } else {
        other_projects(pending.drop_last(), project_id).push(pending.last())
    }
}

/// The session waits for its tab.
pub open spec fn waits(
    pending: Seq<PendingOpenView>,
    project_id: Seq<char>,
    session_id: Seq<char>,
) -> bool {
    exists|i: int|
        0 <= i < pending.len() && (#[trigger] pending[i]).project_id == project_id
            && pending[i].session_id == session_id
}

/// What to open for a session.
#[derive(Debug, PartialEq, Eq)]
pub struct OpenRequest {
    pub root_path: String,
    pub title: String,
}

/// How a session is shown.
#[derive(Debug, PartialEq, Eq)]
pub enum ActivateStep {
    ActivateTab(u64),
    /// Its tab is already opening.
    Wait,
    Open(OpenRequest),
}

/// The tabs of a window and the sessions that they show or will show.
pub struct TabBindings {
    pub bindings: Vec<TabBinding>,
    pub pending: Vec<WorkspaceSidebarPendingOpen>,
}

fn holds_id(ids: &Vec<u64>, id: u64) -> (r: bool)
    ensures
        r == ids@.contains(id),
{
    let mut i: usize = 0;
    while i < ids.len()
        invariant
            i <= ids@.len(),
            forall|j: int| 0 <= j < i ==> ids@[j] != id,
        decreases ids@.len() - i,
    {
        if ids[i] == id {
            return true;
        }
        i = i + 1;
    }
    false
}

impl TabBindings {
    /// Every tab shows one session, and every session is shown in one tab.
    pub open spec fn wf(&self) -> bool {
        one_to_one(self.bindings.deep_view())
    }

    /// No tabs and nothing that waits.
    pub fn new() -> (r: TabBindings)
        ensures
            r.wf(),
            r.bindings.deep_view() == Seq::<BindingView>::empty(),
            r.pending.deep_view() == Seq::<PendingOpenView>::empty(),
    {
        let r = TabBindings { bindings: Vec::new(), pending: Vec::new() };
        assert(r.bindings.deep_view() =~= Seq::<BindingView>::empty());
        assert(r.pending.deep_view() =~= Seq::<PendingOpenView>::empty());
        r
    }

    /// The session that a tab shows.
    pub fn session_for_tab(&self, tab_id: u64) -> (r: Option<(String, String)>)
        ensures
            match r {
                Some(pair) => session_of(self.bindings.deep_view(), tab_id) == Some(
                    (pair.0@, pair.1@),
                ),
                None => session_of(self.bindings.deep_view(), tab_id) is None,
            },
    {
        let ghost all = self.bindings.deep_view();
        let mut left: usize = self.bindings.len();
        assert(all.take(left as int) =~= all);
        while left > 0
            invariant
                left <= self.bindings@.len(),
                all == self.bindings.deep_view(),
                session_of(all, tab_id) == session_of(all.take(left as int), tab_id),
            decreases left,
        {
            let binding = &self.bindings[left - 1];
            assert(all.take(left as int).last() == binding.deep_view());
            assert(all.take(left as int).drop_last() =~= all.take(left - 1));
            if binding.tab_id == tab_id {
                return Some((binding.project_id.clone(), binding.session_id.clone()));
            }
            left = left - 1;
        }
        None
    }

    /// The tab that shows a session.
    pub fn tab_for_session(&self, project_id: &str, session_id: &str) -> (r: Option<u64>)
        ensures
            r == tab_of(self.bindings.deep_view(), binding_key(project_id@, session_id@)),
    {
        let key = sidebar_session_key(project_id, session_id);
        let ghost all = self.bindings.deep_view();
        let mut left: usize = self.bindings.len();
        assert(all.take(left as int) =~= all);
        while left > 0
            invariant
                left <= self.bindings@.len(),
                all == self.bindings.deep_view(),
                key@ == binding_key(project_id@, session_id@),
                tab_of(all, key@) == tab_of(all.take(left as int), key@),
            decreases left,
        {
            let binding = &self.bindings[left - 1];
            assert(all.take(left as int).last() == binding.deep_view());
            assert(all.take(left as int).drop_last() =~= all.take(left - 1));
            let known = sidebar_session_key(
                binding.project_id.as_str(),
                binding.session_id.as_str(),
            );
            if same_text(known.as_str(), key.as_str()) {
                return Some(binding.tab_id);
            }
            left = left - 1;
        }
        None
    }

    /// The names of the sessions that are shown in tabs.
    pub fn bound_session_keys(&self) -> (r: Vec<String>)
        ensures
            r.deep_view() == keys_of(self.bindings.deep_view()),
    {
        let ghost all = self.bindings.deep_view();
        let mut out: Vec<String> = Vec::new();
        let mut i: usize = 0;
        assert(out.deep_view() =~= keys_of(all).take(0));
        while i < self.bindings.len()
            invariant
                i <= self.bindings@.len(),
                all == self.bindings.deep_view(),
                out.deep_view() == keys_of(all).take(i as int),
            decreases self.bindings@.len() - i,
        {
            let binding = &self.bindings[i];
            let ghost before = out.deep_view();
            let key = sidebar_session_key(
                binding.project_id.as_str(),
                binding.session_id.as_str(),
            );
            let ghost named = key@;
            out.push(key);
            assert(out.deep_view() =~= before.push(named));
            assert(keys_of(all).take(i + 1) =~= keys_of(all).take(i as int).push(named));
            i = i + 1;
        }
        assert(keys_of(all).take(i as int) =~= keys_of(all));
        out
    }

    fn forget(&mut self, tab_id: u64, key: &str)
        ensures
            final(self).bindings.deep_view() == without(
                old(self).bindings.deep_view(),
                tab_id,
                key@,
            ),
            final(self).pending == old(self).pending,
    {
        let ghost all = self.bindings.deep_view();
        let mut left: Vec<TabBinding> = Vec::new();
        std::mem::swap(&mut left, &mut self.bindings);
        let mut kept: Vec<TabBinding> = Vec::new();
        let ghost mut done: int = 0;
        assert(kept.deep_view() =~= without(all.take(0), tab_id, key@));
        assert(all.skip(0) =~= all);
        while left.len() > 0
            invariant
                0 <= done <= all.len(),
                left.deep_view() == all.skip(done),
                left@.len() == all.len() - done,
                kept.deep_view() == without(all.take(done), tab_id, key@),
                self.pending == old(self).pending,
            decreases left@.len(),
        {
            let ghost remaining = left.deep_view();
            let ghost before = kept.deep_view();
            let binding = left.remove(0);
            proof {
                assert(remaining[0] == binding.deep_view());
                assert(left.deep_view() =~= remaining.skip(1));
                assert(all.skip(done).skip(1) =~= all.skip(done + 1));
                assert(all.take(done + 1).drop_last() =~= all.take(done));
                assert(all.take(done + 1).last() == binding.deep_view());
            }
            let known = sidebar_session_key(
                binding.project_id.as_str(),
                binding.session_id.as_str(),
            );
            if binding.tab_id != tab_id && !same_text(known.as_str(), key) {
                kept.push(binding);
                assert(kept.deep_view() =~= before.push(binding.deep_view()));
            }
            proof {
                done = done + 1;
            }
        }
        assert(all.take(done) =~= all);
        self.bindings = kept;
    }

    /// Lets a tab show a session.
    pub fn sidebar_bind_session_to_tab(&mut self, project_id: &str, session_id: &str, tab_id: u64)
        requires
            old(self).wf(),
        ensures
            final(self).wf(),
            final(self).bindings.deep_view() == bound_to(
                old(self).bindings.deep_view(),
                project_id@,
                session_id@,
                tab_id,
            ),
            final(self).pending == old(self).pending,
    {
        let ghost before = self.bindings.deep_view();
        let key = sidebar_session_key(project_id, session_id);
        self.forget(tab_id, key.as_str());
        let ghost free = self.bindings.deep_view();
        let binding = TabBinding {
            tab_id,
            project_id: project_id.to_owned(),
            session_id: session_id.to_owned(),
        };
        self.bindings.push(binding);
        proof {
            assert(self.bindings.deep_view() =~= free.push(binding.deep_view()));
            law_binding_keeps_one_to_one(before, project_id@, session_id@, tab_id);
        }
    }

    /// Lets a tab show no session.
    pub fn sidebar_unbind_tab(&mut self, tab_id: u64)
        requires
            old(self).wf(),
        ensures
            final(self).wf(),
            final(self).bindings.deep_view() == without_tab(
                old(self).bindings.deep_view(),
                tab_id,
            ),
            final(self).pending == old(self).pending,
    {
        let ghost all = self.bindings.deep_view();
        let mut i: usize = 0;
        while i < self.bindings.len() && self.bindings[i].tab_id != tab_id
            invariant
                i <= self.bindings@.len(),
                all == self.bindings.deep_view(),
                *self == *old(self),
                forall|j: int| 0 <= j < i ==> (#[trigger] all[j]).tab_id != tab_id,
            decreases self.bindings@.len() - i,
        {
            assert(all[i as int] == self.bindings@[i as int].deep_view());
            i = i + 1;
        }
        if i < self.bindings.len() {
            assert(all[i as int] == self.bindings@[i as int].deep_view());
            let _ = self.bindings.remove(i);
            proof {
                assert(self.bindings.deep_view() =~= all.remove(i as int));
                lemma_without_tab_at(all, tab_id, i as int);
            }
        } else {
            proof {
                lemma_without_absent_tab(all, tab_id);
            }
        }
        proof {
            lemma_without_tab_one_to_one(all, tab_id);
        }
    }

    /// Forgets tabs that are gone. Without a window, everything is forgotten.
    pub fn prune(&mut self, live_tab_ids: &Option<Vec<u64>>)
        requires
            old(self).wf(),
        ensures
            final(self).wf(),
            match live_tab_ids {
                Some(live) => final(self).bindings.deep_view() == only_live(
                    old(self).bindings.deep_view(),
                    live@,
                ) && final(self).pending == old(self).pending,
                None => final(self).bindings@.len() == 0 && final(self).pending@.len() == 0,
            },
    {
        let live = match live_tab_ids {
            Some(live) => live,
            None => {
                self.bindings = Vec::new();
                self.pending = Vec::new();
                return;
            },
        };
        let ghost all = self.bindings.deep_view();
        let mut left: Vec<TabBinding> = Vec::new();
        std::mem::swap(&mut left, &mut self.bindings);
        let mut kept: Vec<TabBinding> = Vec::new();
        let ghost mut done: int = 0;
        assert(kept.deep_view() =~= only_live(all.take(0), live@));
        assert(all.skip(0) =~= all);
        while left.len() > 0
            invariant
                0 <= done <= all.len(),
                left.deep_view() == all.skip(done),
                left@.len() == all.len() - done,
                kept.deep_view() == only_live(all.take(done), live@),
                self.pending == old(self).pending,
            decreases left@.len(),
        {
            let ghost remaining = left.deep_view();
            let ghost before = kept.deep_view();
            let binding = left.remove(0);
            proof {
                assert(remaining[0] == binding.deep_view());
                assert(left.deep_view() =~= remaining.skip(1));
                assert(all.skip(done).skip(1) =~= all.skip(done + 1));
                assert(all.take(done + 1).drop_last() =~= all.take(done));
                assert(all.take(done + 1).last() == binding.deep_view());
            }
            if holds_id(live, binding.tab_id) {
                kept.push(binding);
                assert(kept.deep_view() =~= before.push(binding.deep_view()));
            }
            proof {
                done = done + 1;
            }
        }
        assert(all.take(done) =~= all);
        self.bindings = kept;
        proof {
            lemma_only_live_one_to_one(all, live@);
        }
    }

    /// The tabs of a project's sessions that are neither pinned nor the one to keep.
    fn collect_closable(
        &self,
        project_id: &str,
        keep: Option<&str>,
        pinned: &Vec<String>,
    ) -> (r: Vec<u64>)
        ensures
            r@ == closable(
                self.bindings.deep_view(),
                project_id@,
                match keep {
                    Some(session_id) => Some(session_id@),
                    None => None,
                },
                pinned.deep_view(),
            ),
    {
        let ghost kept = match keep {
            Some(session_id) => Some(session_id@),
            None => None,
        };
        let ghost all = self.bindings.deep_view();
        let mut out: Vec<u64> = Vec::new();
        let mut i: usize = 0;
        assert(out@ =~= closable(all.take(0), project_id@, kept, pinned.deep_view()));
        while i < self.bindings.len()
            invariant
                i <= self.bindings@.len(),
                all == self.bindings.deep_view(),
                kept == match keep {
                    Some(session_id) => Some(session_id@),
                    None => None,
                },
                out@ == closable(all.take(i as int), project_id@, kept, pinned.deep_view()),
            decreases self.bindings@.len() - i,
        {
            let binding = &self.bindings[i];
            proof {
                assert(all.take(i + 1).drop_last() =~= all.take(i as int));
                assert(all.take(i + 1).last() == binding.deep_view());
            }
            let current = match keep {
                Some(session_id) => same_text(session_id, binding.session_id.as_str()),
                None => false,
            };
            if same_text(binding.project_id.as_str(), project_id) && !current && !holds(
                pinned,
                binding.session_id.as_str(),
            ) {
                out.push(binding.tab_id);
            }
            i = i + 1;
        }
        assert(all.take(i as int) =~= all);
        out
    }

    /// The tabs that closing the other sessions of a project closes.
    pub fn sidebar_collect_close_other_tabs(
        &self,
        projects: &Vec<WorkspaceSidebarProject>,
        project_id: &str,
        session_id: &str,
    ) -> (r: Vec<u64>)
        ensures
            r@ == closable(
                self.bindings.deep_view(),
                project_id@,
                Some(session_id@),
                pinned_in(projects.deep_view(), project_id@),
            ),
    {
        let pinned = sidebar_pinned_sessions(projects, project_id);
        self.collect_closable(project_id, Some(session_id), &pinned)
    }

    /// The tabs that closing all sessions of a project closes.
    pub fn sidebar_collect_close_all_tabs(
        &self,
        projects: &Vec<WorkspaceSidebarProject>,
        project_id: &str,
    ) -> (r: Vec<u64>)
        ensures
            r@ == closable(
                self.bindings.deep_view(),
                project_id@,
                None,
                pinned_in(projects.deep_view(), project_id@),
            ),
    {
        let pinned = sidebar_pinned_sessions(projects, project_id);
        self.collect_closable(project_id, None, &pinned)
    }

    /// The tabs of a project's sessions, pinned or not.
    pub fn project_tabs(&self, project_id: &str) -> (r: Vec<u64>)
        ensures
            r@ == closable(self.bindings.deep_view(), project_id@, None, Seq::empty()),
    {
        let none: Vec<String> = Vec::new();
        assert(none.deep_view() =~= Seq::<Seq<char>>::empty());
        self.collect_closable(project_id, None, &none)
    }

    /// Lets these tabs show nothing, and gives back those of them that are still there and have to
    /// be closed.
    pub fn sidebar_close_tabs(&mut self, tab_ids: &Vec<u64>, existing: &Vec<u64>) -> (r: Vec<u64>)
        requires
            old(self).wf(),
        ensures
            final(self).wf(),
            final(self).bindings.deep_view() == without_tabs(
                old(self).bindings.deep_view(),
                tab_ids@,
            ),
            final(self).pending == old(self).pending,
            r@ == present(tab_ids@, existing@),
    {
        let ghost before = self.bindings.deep_view();
        let mut closing: Vec<u64> = Vec::new();
        let mut i: usize = 0;
        assert(tab_ids@.take(0) =~= Seq::<u64>::empty());
        while i < tab_ids.len()
            invariant
                i <= tab_ids@.len(),
                self.wf(),
                self.pending == old(self).pending,
                self.bindings.deep_view() == without_tabs(before, tab_ids@.take(i as int)),
                closing@ == present(tab_ids@.take(i as int), existing@),
            decreases tab_ids@.len() - i,
        {
            proof {
                assert(tab_ids@.take(i + 1).drop_last() =~= tab_ids@.take(i as int));
                assert(tab_ids@.take(i + 1).last() == tab_ids@[i as int]);
            }
            self.sidebar_unbind_tab(tab_ids[i]);
            if holds_id(existing, tab_ids[i]) {
                closing.push(tab_ids[i]);
            }
            i = i + 1;
        }
        assert(tab_ids@.take(i as int) =~= tab_ids@);
        closing
    }

    /// A tab has opened: it shows the session that has waited longest. Gives back the title for it.
    pub fn sidebar_bind_pending_open_to_tab(&mut self, tab_id: u64) -> (r: Option<String>)
        requires
            old(self).wf(),
        ensures
            final(self).wf(),
            ({
                let pending = old(self).pending.deep_view();
                if pending.len() == 0 {
                    &&& r is None
                    &&& *final(self) == *old(self)
                } else {
                    &&& r.deep_view() == Some(pending[0].session_title)
                    &&& final(self).pending.deep_view() == pending.skip(1)
                    &&& final(self).bindings.deep_view() == bound_to(
                        old(self).bindings.deep_view(),
                        pending[0].project_id,
                        pending[0].session_id,
                        tab_id,
                    )
                }
            }),
    {
        let ghost pending = self.pending.deep_view();
        assert(pending.len() == self.pending@.len());
        if self.pending.len() == 0 {
            return None;
        }
        assert(pending[0] == self.pending@[0].deep_view());
        let open = self.pending.remove(0);
        assert(self.pending.deep_view() =~= pending.skip(1));
        self.sidebar_bind_session_to_tab(
            open.project_id.as_str(),
            open.session_id.as_str(),
            tab_id,
        );
        Some(open.session_title)
    }

    fn is_waiting(&self, project_id: &str, session_id: &str) -> (r: bool)
        ensures
            r == waits(self.pending.deep_view(), project_id@, session_id@),
    {
        let ghost all = self.pending.deep_view();
        let mut i: usize = 0;
        while i < self.pending.len()
            invariant
                i <= self.pending@.len(),
                all == self.pending.deep_view(),
                forall|j: int|
                    0 <= j < i ==> !((#[trigger] all[j]).project_id == project_id@
                        && all[j].session_id == session_id@),
            decreases self.pending@.len() - i,
        {
            assert(all[i as int] == self.pending@[i as int].deep_view());
            if same_text(self.pending[i].project_id.as_str(), project_id) && same_text(
                self.pending[i].session_id.as_str(),
                session_id,
            ) {
                return true;
            }
            i = i + 1;
        }
        false
    }

    /// A session without a tab is to be shown: unless it waits already, it waits for a new tab, which
    /// has to be opened as the result says. A session that is not there is an error.
    pub fn open_session(
        &mut self,
        projects: &Vec<WorkspaceSidebarProject>,
        project_id: &str,
        session_id: &str,
    ) -> (r: Result<Option<OpenRequest>, String>)
        requires
            old(self).wf(),
        ensures
            final(self).wf(),
            final(self).bindings == old(self).bindings,
            ({
                let pending = old(self).pending.deep_view();
                let project = project_with_id(projects.deep_view(), project_id@);
                let session = session_in(projects.deep_view(), project_id@, session_id@);
                if waits(pending, project_id@, session_id@) {
                    &&& r == Ok::<Option<OpenRequest>, String>(None)
                    &&& final(self).pending == old(self).pending
                } else if session is None {
                    &&& r matches Err(message) && message@ == "session not found: "@ + project_id@
                        + "/"@ + session_id@
                    &&& final(self).pending == old(self).pending
                } else {
                    &&& r matches Ok(Some(request)) && request.root_path@ == project->0.root_path
                        && request.title@ == session->0.title
                    &&& final(self).pending.deep_view() == pending.push(
                        PendingOpenView {
                            project_id: project_id@,
                            session_id: session_id@,
                            session_title: session->0.title,
                        },
                    )
                }
            }),
    {
        let ghost pending = self.pending.deep_view();
        if self.is_waiting(project_id, session_id) {
            return Ok(None);
        }
        let found = match find_project(projects, project_id) {
            Some(project) => match find_session(&project.sessions, session_id) {
                Some(session) => Some((project.root_path.clone(), session.title.clone())),
                None => None,
            },
            None => None,
        };
        match found {
            Some((root_path, title)) => {
                let open = WorkspaceSidebarPendingOpen {
                    project_id: project_id.to_owned(),
                    session_id: session_id.to_owned(),
                    session_title: title.clone(),
                };
                self.pending.push(open);
                assert(self.pending.deep_view() =~= pending.push(open.deep_view()));
                Ok(Some(OpenRequest { root_path, title }))
            },
            None => {
                let mut message = "session not found: ".to_owned();
                message.append(project_id);
                message.append("/");
                message.append(session_id);
                Err(message)
            },
        }
    }

    /// A session is to be shown: its tab is activated where it has one. Where that tab could not be
    /// activated, which `failed_tab` tells, it shows nothing any more and the session is opened in a
    /// new tab, as it is where it has no tab.
    pub fn sidebar_activate_session(
        &mut self,
        projects: &Vec<WorkspaceSidebarProject>,
        project_id: &str,
        session_id: &str,
        failed_tab: Option<u64>,
    ) -> (r: Result<ActivateStep, String>)
        requires
            old(self).wf(),
        ensures
            final(self).wf(),
            ({
                let before = old(self).bindings.deep_view();
                let after = final(self).bindings.deep_view();
                let session = session_in(projects.deep_view(), project_id@, session_id@);
                let tab = tab_of(before, binding_key(project_id@, session_id@));
                let waiting = waits(old(self).pending.deep_view(), project_id@, session_id@);
                if failed_tab is None && tab is Some {
                    &&& r == Ok::<ActivateStep, String>(ActivateStep::ActivateTab(tab->0))
                    &&& *final(self) == *old(self)
                } else {
                    &&& after == match failed_tab {
                        Some(gone) => without_tab(before, gone),
                        None => before,
                    }
                    &&& if waiting {
                        &&& r == Ok::<ActivateStep, String>(ActivateStep::Wait)
                        &&& final(self).pending == old(self).pending
                    } else if session is None {
                        &&& r matches Err(message) && message@ == "session not found: "@
                            + project_id@ + "/"@ + session_id@
                        &&& final(self).pending == old(self).pending
                    } else {
                        &&& r matches Ok(ActivateStep::Open(request)) && request.root_path@
                            == project_with_id(projects.deep_view(), project_id@)->0.root_path
                            && request.title@ == session->0.title
                        &&& final(self).pending.deep_view() == old(self).pending.deep_view().push(
                            PendingOpenView {
                                project_id: project_id@,
                                session_id: session_id@,
                                session_title: session->0.title,
                            },
                        )
                    }
                }
            }),
    {
        match failed_tab {
            Some(gone) => {
                self.sidebar_unbind_tab(gone);
            },
            None => {
                match self.tab_for_session(project_id, session_id) {
                    Some(tab_id) => {
                        return Ok(ActivateStep::ActivateTab(tab_id));
                    },
                    None => {},
                }
            },
        }
        match self.open_session(projects, project_id, session_id) {
            Ok(Some(request)) => Ok(ActivateStep::Open(request)),
            Ok(None) => Ok(ActivateStep::Wait),
            Err(message) => Err(message),
        }
    }

    /// A project is deleted: its sessions wait no longer. Gives back the tabs that show its sessions.
    pub fn forget_project(&mut self, project_id: &str) -> (r: Vec<u64>)
        ensures
            final(self).bindings == old(self).bindings,
            final(self).pending.deep_view() == other_projects(
                old(self).pending.deep_view(),
                project_id@,
            ),
            r@ == closable(old(self).bindings.deep_view(), project_id@, None, Seq::empty()),
    {
        let ghost all = self.pending.deep_view();
        let mut left: Vec<WorkspaceSidebarPendingOpen> = Vec::new();
        std::mem::swap(&mut left, &mut self.pending);
        let mut kept: Vec<WorkspaceSidebarPendingOpen> = Vec::new();
        let ghost mut done: int = 0;
        assert(kept.deep_view() =~= other_projects(all.take(0), project_id@));
        assert(all.skip(0) =~= all);
        while left.len() > 0
            invariant
                0 <= done <= all.len(),
                left.deep_view() == all.skip(done),
                left@.len() == all.len() - done,
                kept.deep_view() == other_projects(all.take(done), project_id@),
                self.bindings == old(self).bindings,
            decreases left@.len(),
        {
            let ghost remaining = left.deep_view();
            let ghost before = kept.deep_view();
            let open = left.remove(0);
            proof {
                assert(remaining[0] == open.deep_view());
                assert(left.deep_view() =~= remaining.skip(1));
                assert(all.skip(done).skip(1) =~= all.skip(done + 1));
                assert(all.take(done + 1).drop_last() =~= all.take(done));
                assert(all.take(done + 1).last() == open.deep_view());
            }
            if !same_text(open.project_id.as_str(), project_id) {
                kept.push(open);
                assert(kept.deep_view() =~= before.push(open.deep_view()));
            }
            proof {
                done = done + 1;
            }
        }
        assert(all.take(done) =~= all);
        self.pending = kept;
        self.project_tabs(project_id)
    }

    /// Whether the session of a tab is pinned, and false for a tab that shows none. Absent where the
    /// session is not among the projects and these have to be read again, which `reloaded` tells
    /// was done; then it counts as not pinned.
    pub fn sidebar_is_tab_pinned(
        &self,
        projects: &Vec<WorkspaceSidebarProject>,
        tab_id: u64,
        reloaded: bool,
    ) -> (r: Option<bool>)
        ensures
            r == match session_of(self.bindings.deep_view(), tab_id) {
                None => Some(false),
                Some(pair) => match session_pinned(projects.deep_view(), pair.0, pair.1) {
                    Some(pinned) => Some(pinned),
                    None => if reloaded {
                        Some(false)
                    } else {
                        None
                    },
                },
            },
    {
        match self.session_for_tab(tab_id) {
            None => Some(false),
            Some((project_id, session_id)) => {
                let known = sidebar_lookup_session_pinned(
                    projects,
                    project_id.as_str(),
                    session_id.as_str(),
                );
                if known.is_none() && reloaded {
                    Some(false)
                } else {
                    known
                }
            },
        }
    }

    /// The session of a pane's tab. A pane of another window has none, and for a tab that shows none
    /// a session has to be inferred.
    pub fn sidebar_session_binding_for_pane(
        &self,
        pane_window: u64,
        own_window: u64,
        tab_id: u64,
    ) -> (r: PaneBinding)
        ensures
            if pane_window != own_window {
                r is Elsewhere
            } else {
                match session_of(self.bindings.deep_view(), tab_id) {
                    Some(pair) => r matches PaneBinding::Bound { project_id, session_id } && (
                        project_id@,
                        session_id@,
                    ) == pair,
                    None => r is Unbound,
                }
            },
    {
        if pane_window != own_window {
            return PaneBinding::Elsewhere;
        }
        match self.session_for_tab(tab_id) {
            Some((project_id, session_id)) => PaneBinding::Bound { project_id, session_id },
            None => PaneBinding::Unbound,
        }
    }
}

/// What is known of the session of a pane's tab.
#[derive(Debug, PartialEq, Eq)]
pub enum PaneBinding {
    /// The pane is in another window.
    Elsewhere,
    Bound { project_id: String, session_id: String },
    /// A session has to be inferred.
    Unbound,
}

/// Those of the ids that are in the list, in order.
pub open spec fn present(ids: Seq<u64>, existing: Seq<u64>) -> Seq<u64>
    decreases ids.len(),
{
    if ids.len() == 0 {
        Seq::empty()
    } else if existing.contains(ids.last()) {
        present(ids.drop_last(), existing).push(ids.last())
    } else {
        present(ids.drop_last(), existing)
    }
}

// ---------------------------------------------------------------------------
// Laws
// ---------------------------------------------------------------------------

proof fn lemma_without_from(bindings: Seq<BindingView>, tab_id: u64, key: Seq<char>, i: int)
    requires
        0 <= i < without(bindings, tab_id, key).len(),
    ensures
        bindings.contains(without(bindings, tab_id, key)[i]),
        without(bindings, tab_id, key)[i].tab_id != tab_id,
        key_of(without(bindings, tab_id, key)[i]) != key,
    decreases bindings.len(),
{
    let head = bindings.drop_last();
    let part = without(head, tab_id, key);
    if i < part.len() {
        lemma_without_from(head, tab_id, key, i);
        let k = choose|k: int| 0 <= k < head.len() && head[k] == part[i];
        assert(bindings[k] == part[i]);
    } else {
        assert(bindings[bindings.len() - 1] == without(bindings, tab_id, key)[i]);
    }
}

proof fn lemma_without_one_to_one(bindings: Seq<BindingView>, tab_id: u64, key: Seq<char>)
    requires
        one_to_one(bindings),
    ensures
        one_to_one(without(bindings, tab_id, key)),
    decreases bindings.len(),
{
    if bindings.len() > 0 {
        let head = bindings.drop_last();
        let n = bindings.len() - 1;
        assert forall|i: int, j: int| 0 <= i < j < head.len() implies (#[trigger] head[i]).tab_id != (
        #[trigger] head[j]).tab_id && key_of(head[i]) != key_of(head[j]) by {
            assert(head[i] == bindings[i] && head[j] == bindings[j]);
        }
        lemma_without_one_to_one(head, tab_id, key);
        let part = without(head, tab_id, key);
        let result = without(bindings, tab_id, key);
        assert forall|i: int, j: int| 0 <= i < j < result.len() implies (
        #[trigger] result[i]).tab_id != (#[trigger] result[j]).tab_id && key_of(result[i]) != key_of(
            result[j],
        ) by {
            assert(result[i] == part[i]);
            if j < part.len() {
                assert(result[j] == part[j]);
            } else {
                lemma_without_from(head, tab_id, key, i);
                let k = choose|k: int| 0 <= k < head.len() && head[k] == part[i];
                assert(bindings[k] == part[i]);
                assert(result[j] == bindings[n]);
            }
        }
    }
}

/// Binding keeps tabs and sessions one to one.
pub proof fn law_binding_keeps_one_to_one(
    bindings: Seq<BindingView>,
    project_id: Seq<char>,
    session_id: Seq<char>,
    tab_id: u64,
)
    requires
        one_to_one(bindings),
    ensures
        one_to_one(bound_to(bindings, project_id, session_id, tab_id)),
{
    let key = binding_key(project_id, session_id);
    let part = without(bindings, tab_id, key);
    let result = bound_to(bindings, project_id, session_id, tab_id);
    lemma_without_one_to_one(bindings, tab_id, key);
    assert forall|i: int, j: int| 0 <= i < j < result.len() implies (#[trigger] result[i]).tab_id
        != (#[trigger] result[j]).tab_id && key_of(result[i]) != key_of(result[j]) by {
        assert(result[i] == part[i]);
        if j < part.len() {
            assert(result[j] == part[j]);
        } else {
            lemma_without_from(bindings, tab_id, key, i);
        }
    }
}

proof fn lemma_session_of_member(bindings: Seq<BindingView>, tab_id: u64)
    ensures
        session_of(bindings, tab_id) matches Some(pair) ==> bindings.contains(
            BindingView { tab_id, project_id: pair.0, session_id: pair.1 },
        ),
        session_of(bindings, tab_id) is None ==> forall|i: int|
            0 <= i < bindings.len() ==> (#[trigger] bindings[i]).tab_id != tab_id,
    decreases bindings.len(),
{
    if bindings.len() > 0 {
        let head = bindings.drop_last();
        lemma_session_of_member(head, tab_id);
        let n = bindings.len() - 1;
        if bindings[n].tab_id == tab_id {
            assert(bindings.contains(bindings[n]));
        } else if session_of(head, tab_id) is Some {
            let pair = session_of(head, tab_id)->0;
            let wanted = BindingView { tab_id, project_id: pair.0, session_id: pair.1 };
            let k = choose|k: int| 0 <= k < head.len() && head[k] == wanted;
            assert(bindings[k] == wanted);
        } else {
            assert forall|i: int| 0 <= i < bindings.len() implies (#[trigger] bindings[i]).tab_id
                != tab_id by {
                if i < n {
                    assert(head[i] == bindings[i]);
                }
            }
        }
    }
}

proof fn lemma_tab_of_member(bindings: Seq<BindingView>, key: Seq<char>)
    ensures
        tab_of(bindings, key) matches Some(tab) ==> exists|i: int|
            0 <= i < bindings.len() && (#[trigger] bindings[i]).tab_id == tab && key_of(bindings[i])
                == key,
        tab_of(bindings, key) is None ==> forall|i: int|
            0 <= i < bindings.len() ==> key_of(#[trigger] bindings[i]) != key,
    decreases bindings.len(),
{
    if bindings.len() > 0 {
        let head = bindings.drop_last();
        lemma_tab_of_member(head, key);
        let n = bindings.len() - 1;
        if key_of(bindings[n]) == key {
            assert(bindings[n].tab_id == tab_of(bindings, key)->0);
        } else if tab_of(head, key) is Some {
            let k = choose|k: int|
                0 <= k < head.len() && (#[trigger] head[k]).tab_id == tab_of(head, key)->0 && key_of(
                    head[k],
                ) == key;
            assert(bindings[k] == head[k]);
        } else {
            assert forall|i: int| 0 <= i < bindings.len() implies key_of(#[trigger] bindings[i])
                != key by {
                if i < n {
                    assert(head[i] == bindings[i]);
                }
            }
        }
    }
}

proof fn lemma_session_without(
    bindings: Seq<BindingView>,
    tab_id: u64,
    key: Seq<char>,
    other: u64,
)
    requires
        one_to_one(bindings),
        other != tab_id,
    ensures
        session_of(without(bindings, tab_id, key), other) == match session_of(bindings, other) {
            Some(pair) => if binding_key(pair.0, pair.1) == key {
                None
            } else {
                Some(pair)
            },
            None => None,
        },
    decreases bindings.len(),
{
    if bindings.len() > 0 {
        let head = bindings.drop_last();
        assert forall|i: int, j: int| 0 <= i < j < head.len() implies (#[trigger] head[i]).tab_id
            != (#[trigger] head[j]).tab_id && key_of(head[i]) != key_of(head[j]) by {
            assert(head[i] == bindings[i] && head[j] == bindings[j]);
        }
        lemma_session_without(head, tab_id, key, other);
        let n = bindings.len() - 1;
        let last = bindings[n];
        if last.tab_id == other {
            lemma_session_of_member(head, other);
            if session_of(head, other) is Some {
                let pair = session_of(head, other)->0;
                let wanted = BindingView { tab_id: other, project_id: pair.0, session_id: pair.1 };
                let k = choose|k: int| 0 <= k < head.len() && head[k] == wanted;
                assert(bindings[k].tab_id != bindings[n].tab_id);
            }
        }
        if last.tab_id != tab_id && key_of(last) != key {
            let part = without(head, tab_id, key).push(last);
            assert(part.drop_last() =~= without(head, tab_id, key));
        }
    }
}

/// After binding, the tab shows the session and the session is shown in the tab; every other tab
/// shows what it showed, except that none other shows the session.
pub proof fn law_binding_is_seen(
    bindings: Seq<BindingView>,
    project_id: Seq<char>,
    session_id: Seq<char>,
    tab_id: u64,
    other: u64,
)
    requires
        one_to_one(bindings),
    ensures
        session_of(bound_to(bindings, project_id, session_id, tab_id), tab_id) == Some(
            (project_id, session_id),
        ),
        tab_of(
            bound_to(bindings, project_id, session_id, tab_id),
            binding_key(project_id, session_id),
        ) == Some(tab_id),
        other != tab_id ==> session_of(
            bound_to(bindings, project_id, session_id, tab_id),
            other,
        ) == match session_of(bindings, other) {
            Some(pair) => if binding_key(pair.0, pair.1) == binding_key(project_id, session_id) {
                None
            } else {
                Some(pair)
            },
            None => None,
        },
{
    let key = binding_key(project_id, session_id);
    let result = bound_to(bindings, project_id, session_id, tab_id);
    assert(result.drop_last() =~= without(bindings, tab_id, key));
    if other != tab_id {
        assert(result.last().tab_id != other);
        lemma_session_without(bindings, tab_id, key, other);
    }
}

/// A tab shows a session exactly where the session is shown in the tab.
pub proof fn law_bindings_are_inverse(bindings: Seq<BindingView>, tab_id: u64, key: Seq<char>)
    requires
        one_to_one(bindings),
    ensures
        (session_of(bindings, tab_id) matches Some(pair) && binding_key(pair.0, pair.1) == key)
            <==> tab_of(bindings, key) == Some(tab_id),
{
    lemma_session_of_member(bindings, tab_id);
    lemma_tab_of_member(bindings, key);
    if tab_of(bindings, key) is Some {
        let i = choose|i: int|
            0 <= i < bindings.len() && (#[trigger] bindings[i]).tab_id == tab_of(bindings, key)->0
                && key_of(bindings[i]) == key;
        if session_of(bindings, tab_id) is Some {
            let pair = session_of(bindings, tab_id)->0;
            let wanted = BindingView { tab_id, project_id: pair.0, session_id: pair.1 };
            let j = choose|j: int| 0 <= j < bindings.len() && bindings[j] == wanted;
            if i != j {
                assert(bindings[i].tab_id != bindings[j].tab_id);
                assert(key_of(bindings[i]) != key_of(bindings[j]));
            }
        }
    } else if session_of(bindings, tab_id) is Some {
        let pair = session_of(bindings, tab_id)->0;
        let wanted = BindingView { tab_id, project_id: pair.0, session_id: pair.1 };
        let j = choose|j: int| 0 <= j < bindings.len() && bindings[j] == wanted;
        assert(key_of(bindings[j]) != key);
    }
}

proof fn lemma_without_absent_tab(bindings: Seq<BindingView>, tab_id: u64)
    requires
        forall|j: int| 0 <= j < bindings.len() ==> (#[trigger] bindings[j]).tab_id != tab_id,
    ensures
        without_tab(bindings, tab_id) == bindings,
    decreases bindings.len(),
{
    if bindings.len() > 0 {
        let head = bindings.drop_last();
        assert forall|j: int| 0 <= j < head.len() implies (#[trigger] head[j]).tab_id != tab_id by {
            assert(head[j] == bindings[j]);
        }
        lemma_without_absent_tab(head, tab_id);
        assert(bindings[bindings.len() - 1].tab_id != tab_id);
        assert(head.push(bindings.last()) =~= bindings);
    } else {
        assert(bindings =~= Seq::<BindingView>::empty());
    }
}

proof fn lemma_without_tab_at(bindings: Seq<BindingView>, tab_id: u64, at: int)
    requires
        0 <= at < bindings.len(),
        one_to_one(bindings),
        bindings[at].tab_id == tab_id,
    ensures
        without_tab(bindings, tab_id) == bindings.remove(at),
    decreases bindings.len(),
{
    let head = bindings.drop_last();
    let n = bindings.len() - 1;
    assert forall|i: int, j: int| 0 <= i < j < head.len() implies (#[trigger] head[i]).tab_id != (
    #[trigger] head[j]).tab_id && key_of(head[i]) != key_of(head[j]) by {
        assert(head[i] == bindings[i] && head[j] == bindings[j]);
    }
    if at == n {
        assert forall|j: int| 0 <= j < head.len() implies (#[trigger] head[j]).tab_id != tab_id by {
            assert(head[j] == bindings[j]);
            assert(bindings[j].tab_id != bindings[n].tab_id);
        }
        lemma_without_absent_tab(head, tab_id);
        assert(bindings.remove(at) =~= head);
    } else {
        assert(bindings[at].tab_id != bindings[n].tab_id);
        assert(head[at] == bindings[at]);
        lemma_without_tab_at(head, tab_id, at);
        assert(bindings.remove(at) =~= head.remove(at).push(bindings[n]));
    }
}

proof fn lemma_without_tab_from(bindings: Seq<BindingView>, tab_id: u64, i: int)
    requires
        0 <= i < without_tab(bindings, tab_id).len(),
    ensures
        bindings.contains(without_tab(bindings, tab_id)[i]),
        without_tab(bindings, tab_id)[i].tab_id != tab_id,
    decreases bindings.len(),
{
    let head = bindings.drop_last();
    let part = without_tab(head, tab_id);
    if i < part.len() {
        lemma_without_tab_from(head, tab_id, i);
        let k = choose|k: int| 0 <= k < head.len() && head[k] == part[i];
        assert(bindings[k] == part[i]);
    } else {
        assert(bindings[bindings.len() - 1] == without_tab(bindings, tab_id)[i]);
    }
}

proof fn lemma_without_tab_one_to_one(bindings: Seq<BindingView>, tab_id: u64)
    requires
        one_to_one(bindings),
    ensures
        one_to_one(without_tab(bindings, tab_id)),
    decreases bindings.len(),
{
    if bindings.len() > 0 {
        let head = bindings.drop_last();
        let n = bindings.len() - 1;
        assert forall|i: int, j: int| 0 <= i < j < head.len() implies (#[trigger] head[i]).tab_id != (
        #[trigger] head[j]).tab_id && key_of(head[i]) != key_of(head[j]) by {
            assert(head[i] == bindings[i] && head[j] == bindings[j]);
        }
        lemma_without_tab_one_to_one(head, tab_id);
        let part = without_tab(head, tab_id);
        let result = without_tab(bindings, tab_id);
        assert forall|i: int, j: int| 0 <= i < j < result.len() implies (
        #[trigger] result[i]).tab_id != (#[trigger] result[j]).tab_id && key_of(result[i]) != key_of(
            result[j],
        ) by {
            assert(result[i] == part[i]);
            if j < part.len() {
                assert(result[j] == part[j]);
            } else {
                lemma_without_tab_from(head, tab_id, i);
                let k = choose|k: int| 0 <= k < head.len() && head[k] == part[i];
                assert(bindings[k] == part[i]);
                assert(result[j] == bindings[n]);
            }
        }
    }
}

proof fn lemma_only_live_from(bindings: Seq<BindingView>, live: Seq<u64>, i: int)
    requires
        0 <= i < only_live(bindings, live).len(),
    ensures
        bindings.contains(only_live(bindings, live)[i]),
        live.contains(only_live(bindings, live)[i].tab_id),
    decreases bindings.len(),
{
    let head = bindings.drop_last();
    let part = only_live(head, live);
    if i < part.len() {
        lemma_only_live_from(head, live, i);
        let k = choose|k: int| 0 <= k < head.len() && head[k] == part[i];
        assert(bindings[k] == part[i]);
    } else {
        assert(bindings[bindings.len() - 1] == only_live(bindings, live)[i]);
    }
}

proof fn lemma_only_live_one_to_one(bindings: Seq<BindingView>, live: Seq<u64>)
    requires
        one_to_one(bindings),
    ensures
        one_to_one(only_live(bindings, live)),
    decreases bindings.len(),
{
    if bindings.len() > 0 {
        let head = bindings.drop_last();
        let n = bindings.len() - 1;
        assert forall|i: int, j: int| 0 <= i < j < head.len() implies (#[trigger] head[i]).tab_id != (
        #[trigger] head[j]).tab_id && key_of(head[i]) != key_of(head[j]) by {
            assert(head[i] == bindings[i] && head[j] == bindings[j]);
        }
        lemma_only_live_one_to_one(head, live);
        let part = only_live(head, live);
        let result = only_live(bindings, live);
        assert forall|i: int, j: int| 0 <= i < j < result.len() implies (
        #[trigger] result[i]).tab_id != (#[trigger] result[j]).tab_id && key_of(result[i]) != key_of(
            result[j],
        ) by {
            assert(result[i] == part[i]);
            if j < part.len() {
                assert(result[j] == part[j]);
            } else {
                lemma_only_live_from(head, live, i);
                let k = choose|k: int| 0 <= k < head.len() && head[k] == part[i];
                assert(bindings[k] == part[i]);
                assert(result[j] == bindings[n]);
            }
        }
    }
}

/// After an unbinding the tab shows no session, and every other tab shows what it showed.
pub proof fn law_unbound_tab_shows_nothing(bindings: Seq<BindingView>, tab_id: u64, other: u64)
    ensures
        session_of(without_tab(bindings, tab_id), tab_id) is None,
        other != tab_id ==> session_of(without_tab(bindings, tab_id), other) == session_of(
            bindings,
            other,
        ),
    decreases bindings.len(),
{
    if bindings.len() > 0 {
        let head = bindings.drop_last();
        law_unbound_tab_shows_nothing(head, tab_id, other);
        let part = without_tab(head, tab_id);
        assert(part.push(bindings.last()).drop_last() =~= part);
    }
}

/// After pruning, a tab shows a session exactly where it is still there and showed it before.
pub proof fn law_pruning_keeps_live_tabs(bindings: Seq<BindingView>, live: Seq<u64>, tab_id: u64)
    ensures
        session_of(only_live(bindings, live), tab_id) == if live.contains(tab_id) {
            session_of(bindings, tab_id)
        } else {
            None
        },
    decreases bindings.len(),
{
    if bindings.len() > 0 {
        let head = bindings.drop_last();
        law_pruning_keeps_live_tabs(head, live, tab_id);
        let part = only_live(head, live);
        assert(part.push(bindings.last()).drop_last() =~= part);
    }
}

/// Closing sessions of a project closes only tabs of that project, never a pinned session and never
/// the one to keep; every other session of the project that has a tab is closed.
pub proof fn law_closing_spares_pinned(
    bindings: Seq<BindingView>,
    project_id: Seq<char>,
    keep: Option<Seq<char>>,
    pinned: Seq<Seq<char>>,
    tab_id: u64,
)
    requires
        one_to_one(bindings),
    ensures
        closable(bindings, project_id, keep, pinned).contains(tab_id) <==> (session_of(
            bindings,
            tab_id,
        ) matches Some(pair) && pair.0 == project_id && keep != Some(pair.1) && !pinned.contains(
            pair.1,
        )),
    decreases bindings.len(),
{
    if bindings.len() > 0 {
        let head = bindings.drop_last();
        let last = bindings.last();
        let n = bindings.len() - 1;
        assert forall|i: int, j: int| 0 <= i < j < head.len() implies (#[trigger] head[i]).tab_id != (
        #[trigger] head[j]).tab_id && key_of(head[i]) != key_of(head[j]) by {
            assert(head[i] == bindings[i] && head[j] == bindings[j]);
        }
        law_closing_spares_pinned(head, project_id, keep, pinned, tab_id);
        let part = closable(head, project_id, keep, pinned);
        let all = closable(bindings, project_id, keep, pinned);
        if last.tab_id == tab_id {
            lemma_session_of_member(head, tab_id);
            if session_of(head, tab_id) is Some {
                let pair = session_of(head, tab_id)->0;
                let wanted = BindingView { tab_id, project_id: pair.0, session_id: pair.1 };
                let k = choose|k: int| 0 <= k < head.len() && head[k] == wanted;
                assert(bindings[k].tab_id != bindings[n].tab_id);
            }
            if closes(last, project_id, keep, pinned) {
                assert(all[all.len() - 1] == tab_id);
            }
        } else if all.contains(tab_id) {
            let k = choose|k: int| 0 <= k < all.len() && all[k] == tab_id;
            assert(part[k] == tab_id);
        } else if part.contains(tab_id) {
            let k = choose|k: int| 0 <= k < part.len() && part[k] == tab_id;
            assert(all[k] == tab_id);
        }
    }
}

/// A pinned session of a project is found among its pinned ids.
pub proof fn law_pinned_ids_are_pinned(sessions: Seq<SessionView>, id: Seq<char>)
    ensures
        pinned_ids(sessions).contains(id) <==> exists|i: int|
            0 <= i < sessions.len() && (#[trigger] sessions[i]).id == id && sessions[i].pinned,
    decreases sessions.len(),
{
    if sessions.len() > 0 {
        let head = sessions.drop_last();
        let n = sessions.len() - 1;
        law_pinned_ids_are_pinned(head, id);
        let part = pinned_ids(head);
        let all = pinned_ids(sessions);
        if exists|i: int|
            0 <= i < sessions.len() && (#[trigger] sessions[i]).id == id && sessions[i].pinned {
            let i = choose|i: int|
                0 <= i < sessions.len() && (#[trigger] sessions[i]).id == id && sessions[i].pinned;
            if i < n {
                assert(head[i] == sessions[i]);
                let k = choose|k: int| 0 <= k < part.len() && part[k] == id;
                assert(all[k] == id);
            } else {
                assert(all[all.len() - 1] == id);
            }
        }
        if all.contains(id) {
            let k = choose|k: int| 0 <= k < all.len() && all[k] == id;
            if k < part.len() {
                assert(part[k] == id);
                let i = choose|i: int|
                    0 <= i < head.len() && (#[trigger] head[i]).id == id && head[i].pinned;
                assert(sessions[i] == head[i]);
            } else {
                assert(sessions[n].id == id);
            }
        }
    }
}

/// A session that is being opened waits for its tab, so that it is not opened a second time.
pub proof fn law_opening_session_waits(pending: Seq<PendingOpenView>, open: PendingOpenView)
    ensures
        waits(pending.push(open), open.project_id, open.session_id),
{
    assert(pending.push(open)[pending.len() as int] == open);
}

} // verus!
