//! From signals to stored statuses: events of a pane change the status of its session, and changed
//! statuses wait to be written.
use vstd::prelude::*;

use crate::agent_status::adapters::{
    events_of, have_seen, AgentAdapterRegistry, AgentSignal, UserVars,
};
use crate::agent_status::events::{
    AgentEvent, AgentEventView, SessionStatus, SessionStatusConfidence, SessionStatusSource,
};
use crate::agent_status::manager::{
    event_snapshot, known, update_answer, updated, SessionStatusError, SessionStatusManager,
    SessionStatusSnapshot, SnapshotView, StatusErrorView,
};
use crate::codex_app_server::{
    managed_start, managed_start_request, ChannelChange, CodexChannels, ManagedStart,
    ManagedStartView,
};
use crate::numbers::{decimal, decimal_of};
use crate::text::{joined, same_text};

verus! {

/// How long changed statuses wait before they are written, in milliseconds.
pub const FLUSH_DELAY_MS: u64 = 300;

/// A changed status that waits to be written.
#[derive(Debug, PartialEq, Eq)]
pub struct PendingSessionStatusWrite {
    pub project_id: String,
    pub session_id: String,
    pub snapshot: SessionStatusSnapshot,
}

/// A [`PendingSessionStatusWrite`] over sequences.
pub struct PendingView {
    pub project_id: Seq<char>,
    pub session_id: Seq<char>,
    pub snapshot: SnapshotView,
}

impl DeepView for PendingSessionStatusWrite {
    type V = PendingView;

    open spec fn deep_view(&self) -> PendingView {
        PendingView {
            project_id: self.project_id@,
            session_id: self.session_id@,
            snapshot: self.snapshot.deep_view(),
        }
    }
}

/// The name under which the status of a session is kept.
pub open spec fn status_key(project_id: Seq<char>, session_id: Seq<char>) -> Seq<char> {
    project_id + "/"@ + session_id
}

/// The name under which a waiting write is kept.
pub open spec fn write_key(write: PendingView) -> Seq<char> {
    status_key(write.project_id, write.session_id)
}

/// The name under which the status of a session is kept.
pub fn session_status_key(project_id: &str, session_id: &str) -> (r: String)
    ensures
        r@ == status_key(project_id@, session_id@),
{
    joined(joined(project_id, "/").as_str(), session_id)
}

/// The waiting writes with one more: it takes the place of the one for the same session, or else
/// comes last.
pub open spec fn enqueued(pending: Seq<PendingView>, write: PendingView) -> Seq<PendingView>
    decreases pending.len(),
{
    if pending.len() == 0 {
        seq![write]
    } else if write_key(pending[0]) == write_key(write) {
        seq![write] + pending.skip(1)
    } else {
        seq![pending[0]] + enqueued(pending.skip(1), write)
    }
}

/// At most one write waits for each session.
pub open spec fn one_per_session(pending: Seq<PendingView>) -> bool {
    forall|i: int, j: int|
        0 <= i < j < pending.len() ==> write_key(#[trigger] pending[i]) != write_key(
            #[trigger] pending[j],
        )
}

/// The statuses, the waiting writes, whether writing them has been arranged, and the changes that
/// were rejected.
pub struct Board {
    pub sessions: Map<Seq<char>, SnapshotView>,
    pub pending: Seq<PendingView>,
    pub arranged: bool,
    pub rejected: Seq<StatusErrorView>,
}

/// The board after one event of a session: an allowed change is taken over and waits to be written, which
/// is then arranged; one that is not allowed is noted as rejected.
pub open spec fn board_after(
    board: Board,
    project_id: Seq<char>,
    session_id: Seq<char>,
    event: AgentEventView,
    source: SessionStatusSource,
    confidence: SessionStatusConfidence,
) -> Board {
    let key = status_key(project_id, session_id);
    let next = event_snapshot(event, source, confidence);
    match update_answer(board.sessions, key, next) {
        Ok(Some(transition)) => Board {
            sessions: updated(board.sessions, key, next),
            pending: enqueued(
                board.pending,
                PendingView { project_id, session_id, snapshot: transition.current },
            ),
            arranged: true,
            rejected: board.rejected,
        },
        Ok(None) => board,
        Err(error) => Board { rejected: board.rejected.push(error), ..board },
    }
}

/// The board after events of a session, in order.
pub open spec fn board_after_all(
    board: Board,
    project_id: Seq<char>,
    session_id: Seq<char>,
    events: Seq<AgentEventView>,
    source: SessionStatusSource,
    confidence: SessionStatusConfidence,
) -> Board
    decreases events.len(),
{
    if events.len() == 0 {
        board
    } else {
        board_after(
            board_after_all(board, project_id, session_id, events.drop_last(), source, confidence),
            project_id,
            session_id,
            events.last(),
            source,
            confidence,
        )
    }
}

/// The sessions with one more registered, where it was not.
pub open spec fn registered(
    sessions: Map<Seq<char>, SnapshotView>,
    key: Seq<char>,
    initial: SnapshotView,
) -> Map<Seq<char>, SnapshotView> {
    if known(sessions, key) is Some {
        sessions
    } else {
        sessions.insert(key, initial)
    }
}

/// An idle status of this origin.
pub open spec fn idle_snapshot(
    source: SessionStatusSource,
    confidence: SessionStatusConfidence,
) -> SnapshotView {
    SnapshotView { status: SessionStatus::Idle, source, confidence, reason: None }
}

/// The status that a session is registered with: the stored one, or else idle.
pub open spec fn initial_snapshot(
    stored: Option<SnapshotView>,
    source: SessionStatusSource,
    confidence: SessionStatusConfidence,
) -> SnapshotView {
    match stored {
        Some(snapshot) => snapshot,
        None => idle_snapshot(source, confidence),
    }
}

/// The board after events of a session, which is registered first where it was not known. Where
/// there are no events, nothing happens.
pub open spec fn processed(
    board: Board,
    project_id: Seq<char>,
    session_id: Seq<char>,
    initial: SnapshotView,
    events: Seq<AgentEventView>,
    source: SessionStatusSource,
    confidence: SessionStatusConfidence,
) -> Board {
    if events.len() == 0 {
        board
    } else {
        board_after_all(
            Board {
                sessions: registered(
                    board.sessions,
                    status_key(project_id, session_id),
                    initial,
                ),
                pending: board.pending,
                arranged: board.arranged,
                rejected: board.rejected,
            },
            project_id,
            session_id,
            events,
            source,
            confidence,
        )
    }
}

/// The session that a pane belongs to, over sequences.
pub open spec fn binding_view(binding: Option<(String, String)>) -> Option<
    (Seq<char>, Seq<char>),
> {
    match binding {
        Some(pair) => Some((pair.0@, pair.1@)),
        None => None,
    }
}

/// The board after events of a pane; events of a pane without a session are dropped.
pub open spec fn pane_processed(
    board: Board,
    binding: Option<(Seq<char>, Seq<char>)>,
    stored: Option<SnapshotView>,
    events: Seq<AgentEventView>,
    source: SessionStatusSource,
    confidence: SessionStatusConfidence,
) -> Board {
    match binding {
        Some((project_id, session_id)) => processed(
            board,
            project_id,
            session_id,
            initial_snapshot(stored, SessionStatusSource::Heuristic, SessionStatusConfidence::Low),
            events,
            source,
            confidence,
        ),
        None => board,
    }
}

/// The statuses, the writes that wait, whether writing them has been arranged, and the changes that
/// were rejected and not yet handed out.
pub struct AgentStatusBridge {
    pub manager: SessionStatusManager,
    pub pending: Vec<PendingSessionStatusWrite>,
    pub flush_scheduled: bool,
    pub rejected: Vec<SessionStatusError>,
}

impl AgentStatusBridge {
    /// The statuses, the waiting writes, whether writing them has been arranged, and the changes
    /// that were rejected.
    pub open spec fn board(&self) -> Board {
        Board {
            sessions: self.manager@,
            pending: self.pending.deep_view(),
            arranged: self.flush_scheduled,
            rejected: self.rejected.deep_view(),
        }
    }

    /// At most one write waits for each session, and writes wait only where writing is arranged.
    pub open spec fn wf(&self) -> bool {
        &&& one_per_session(self.pending.deep_view())
        &&& self.pending@.len() > 0 ==> self.flush_scheduled
    }

    /// No sessions and nothing to write.
    pub fn new() -> (r: AgentStatusBridge)
        ensures
            r.wf(),
            r.board() == (Board {
                sessions: Map::empty(),
                pending: Seq::empty(),
                arranged: false,
                rejected: Seq::empty(),
            }),
    {
        let r = AgentStatusBridge {
            manager: SessionStatusManager::default(),
            pending: Vec::new(),
            flush_scheduled: false,
            rejected: Vec::new(),
        };
        assert(r.pending.deep_view() =~= Seq::<PendingView>::empty());
        assert(r.rejected.deep_view() =~= Seq::<StatusErrorView>::empty());
        r
    }

    /// Lets a changed status wait to be written; true where writing has to be arranged now.
    pub fn enqueue_session_status_write(
        &mut self,
        project_id: &str,
        session_id: &str,
        snapshot: SessionStatusSnapshot,
    ) -> (r: bool)
        requires
            old(self).wf(),
        ensures
            final(self).wf(),
            final(self).manager == old(self).manager,
            final(self).rejected == old(self).rejected,
            final(self).pending.deep_view() == enqueued(
                old(self).pending.deep_view(),
                PendingView {
                    project_id: project_id@,
                    session_id: session_id@,
                    snapshot: snapshot.deep_view(),
                },
            ),
            final(self).flush_scheduled,
            r == !old(self).flush_scheduled,
    {
        let write = PendingSessionStatusWrite {
            project_id: project_id.to_owned(),
            session_id: session_id.to_owned(),
            snapshot,
        };
        let key = session_status_key(project_id, session_id);
        let ghost before = self.pending.deep_view();
        let ghost view = write.deep_view();
        let mut i: usize = 0;
        assert(before.take(0) + enqueued(before.skip(0), view) =~= enqueued(before, view)) by {
            assert(before.skip(0) =~= before);
        }
        while i < self.pending.len() && !same_text(
            session_status_key(
                self.pending[i].project_id.as_str(),
                self.pending[i].session_id.as_str(),
            ).as_str(),
            key.as_str(),
        )
            invariant
                i <= self.pending@.len(),
                before == self.pending.deep_view(),
                view == write.deep_view(),
                key@ == write_key(view),
                *self == *old(self),
                before.take(i as int) + enqueued(before.skip(i as int), view) == enqueued(
                    before,
                    view,
                ),
            decreases self.pending@.len() - i,
        {
            proof {
                let rest = before.skip(i as int);
                assert(rest[0] == self.pending@[i as int].deep_view());
                assert(rest.skip(1) =~= before.skip(i + 1));
                assert(before.take(i as int) + (seq![rest[0]] + enqueued(rest.skip(1), view))
                    =~= before.take(i + 1) + enqueued(before.skip(i + 1), view));
            }
            i = i + 1;
        }
        proof {
            law_enqueued_is_one_per_session(before, view);
        }
        if i < self.pending.len() {
            assert(before.skip(i as int)[0] == self.pending@[i as int].deep_view());
            self.pending.set(i, write);
            proof {
                assert(self.pending.deep_view() =~= before.update(i as int, view));
                assert(before.take(i as int) + (seq![view] + before.skip(i as int).skip(1))
                    =~= before.update(i as int, view));
            }
        } else {
            self.pending.push(write);
            proof {
                assert(self.pending.deep_view() =~= before.push(view));
                assert(before.take(i as int) + seq![view] =~= before.push(view));
            }
        }
        let first = !self.flush_scheduled;
        self.flush_scheduled = true;
        first
    }

    /// Hands out the writes that wait; none wait afterwards.
    pub fn flush_pending_session_status_writes(&mut self) -> (r: Vec<PendingSessionStatusWrite>)
        ensures
            r.deep_view() == old(self).pending.deep_view(),
            final(self).manager == old(self).manager,
            final(self).rejected == old(self).rejected,
            final(self).pending@.len() == 0,
            !final(self).flush_scheduled,
            final(self).wf(),
    {
        self.flush_scheduled = false;
        let mut writes: Vec<PendingSessionStatusWrite> = Vec::new();
        std::mem::swap(&mut writes, &mut self.pending);
        writes
    }

    /// Hands out the changes that were rejected since this was last asked, in order.
    pub fn take_rejected(&mut self) -> (r: Vec<SessionStatusError>)
        ensures
            r.deep_view() == old(self).rejected.deep_view(),
            final(self).board() == (Board { rejected: Seq::empty(), ..old(self).board() }),
            old(self).wf() ==> final(self).wf(),
    {
        let mut rejected: Vec<SessionStatusError> = Vec::new();
        std::mem::swap(&mut rejected, &mut self.rejected);
        assert(self.rejected.deep_view() =~= Seq::<StatusErrorView>::empty());
        rejected
    }

    fn process_events(
        &mut self,
        project_id: &str,
        session_id: &str,
        initial: SessionStatusSnapshot,
        events: &Vec<AgentEvent>,
        source: SessionStatusSource,
        confidence: SessionStatusConfidence,
    ) -> (r: bool)
        requires
            old(self).wf(),
        ensures
            final(self).wf(),
            final(self).board() == processed(
                old(self).board(),
                project_id@,
                session_id@,
                initial.deep_view(),
                events.deep_view(),
                source,
                confidence,
            ),
            r == (final(self).flush_scheduled && !old(self).flush_scheduled),
    {
        assert(events.deep_view().len() == events@.len());
        if events.len() == 0 {
            return false;
        }
        let key = session_status_key(project_id, session_id);
        if self.manager.snapshot(key.as_str()).is_none() {
            self.manager.register_session(key.as_str(), initial);
        }
        let ghost begun = self.board();
        let ghost all = events.deep_view();
        let mut arrange = false;
        let mut i: usize = 0;
        while i < events.len()
            invariant
                i <= events@.len(),
                self.wf(),
                all == events.deep_view(),
                key@ == status_key(project_id@, session_id@),
                self.board() == board_after_all(
                    begun,
                    project_id@,
                    session_id@,
                    all.take(i as int),
                    source,
                    confidence,
                ),
                arrange == (self.flush_scheduled && !old(self).flush_scheduled),
                old(self).flush_scheduled ==> self.flush_scheduled,
            decreases events@.len() - i,
        {
            proof {
                assert(all.take(i + 1).drop_last() =~= all.take(i as int));
                assert(all.take(i + 1).last() == events@[i as int].deep_view());
            }
            match self.manager.apply_agent_event(key.as_str(), &events[i], source, confidence) {
                Ok(Some(transition)) => {
                    if self.enqueue_session_status_write(
                        project_id,
                        session_id,
                        transition.current,
                    ) {
                        arrange = true;
                    }
                },
                Ok(None) => {},
                Err(error) => {
                    let ghost before = self.rejected.deep_view();
                    self.rejected.push(error);
                    assert(self.rejected.deep_view() =~= before.push(error.deep_view()));
                },
            }
            i = i + 1;
        }
        assert(all.take(i as int) =~= all);
        arrange
    }

    /// Takes in events of a pane. `stored` is the status that storage holds for the pane's session.
    /// True where writing has to be arranged now.
    pub fn process_agent_events_for_pane(
        &mut self,
        binding: &Option<(String, String)>,
        stored: Option<SessionStatusSnapshot>,
        events: &Vec<AgentEvent>,
        source: SessionStatusSource,
        confidence: SessionStatusConfidence,
    ) -> (r: bool)
        requires
            old(self).wf(),
        ensures
            final(self).wf(),
            final(self).board() == pane_processed(
                old(self).board(),
                binding_view(*binding),
                stored.deep_view(),
                events.deep_view(),
                source,
                confidence,
            ),
            r == (final(self).flush_scheduled && !old(self).flush_scheduled),
    {
        match binding {
            Some(pair) => {
                let initial = match stored {
                    Some(snapshot) => snapshot,
                    None => SessionStatusSnapshot::new(
                        SessionStatus::Idle,
                        SessionStatusSource::Heuristic,
                        SessionStatusConfidence::Low,
                        None,
                    ),
                };
                self.process_events(
                    pair.0.as_str(),
                    pair.1.as_str(),
                    initial,
                    events,
                    source,
                    confidence,
                )
            },
            None => false,
        }
    }

    /// Takes in events of a session. `stored` is the status that storage holds for it. True where
    /// writing has to be arranged now.
    pub fn process_agent_events_for_session(
        &mut self,
        project_id: &str,
        session_id: &str,
        stored: Option<SessionStatusSnapshot>,
        events: &Vec<AgentEvent>,
        source: SessionStatusSource,
        confidence: SessionStatusConfidence,
    ) -> (r: bool)
        requires
            old(self).wf(),
        ensures
            final(self).wf(),
            final(self).board() == processed(
                old(self).board(),
                project_id@,
                session_id@,
                initial_snapshot(
                    stored.deep_view(),
                    SessionStatusSource::Structured,
                    SessionStatusConfidence::High,
                ),
                events.deep_view(),
                source,
                confidence,
            ),
            r == (final(self).flush_scheduled && !old(self).flush_scheduled),
    {
        let initial = match stored {
            Some(snapshot) => snapshot,
            None => SessionStatusSnapshot::new(
                SessionStatus::Idle,
                SessionStatusSource::Structured,
                SessionStatusConfidence::High,
                None,
            ),
        };
        self.process_events(project_id, session_id, initial, events, source, confidence)
    }

    /// Takes in what a pane's app-server channel reported. Gives back the thread that storage should
    /// note for the pane's session, and whether writing has to be arranged now.
    pub fn handle_codex_app_server_event(
        &mut self,
        binding: &Option<(String, String)>,
        stored: Option<SessionStatusSnapshot>,
        events: &Vec<AgentEvent>,
        thread_id: &Option<String>,
    ) -> (r: (Option<(String, String, String)>, bool))
        requires
            old(self).wf(),
        ensures
            final(self).wf(),
            match (binding, thread_id) {
                (Some(pair), Some(thread)) => r.0 matches Some(note) && note.0@ == pair.0@ && note.1@
                    == pair.1@ && note.2@ == thread@,
                _ => r.0 is None,
            },
            final(self).board() == pane_processed(
                old(self).board(),
                binding_view(*binding),
                stored.deep_view(),
                events.deep_view(),
                SessionStatusSource::Structured,
                SessionStatusConfidence::High,
            ),
            r.1 == (final(self).flush_scheduled && !old(self).flush_scheduled),
    {
        let note = match (binding, thread_id) {
            (Some(pair), Some(thread)) => Some((pair.0.clone(), pair.1.clone(), thread.clone())),
            _ => None,
        };
        let arrange = self.process_agent_events_for_pane(
            binding,
            stored,
            events,
            SessionStatusSource::Structured,
            SessionStatusConfidence::High,
        );
        (note, arrange)
    }
}

/// What a user variable of a pane leads to, besides the statuses.
#[derive(Debug, PartialEq, Eq)]
pub enum ChannelAction {
    /// The channels stay as they are.
    Keep,
    /// Stop the pane's channel.
    Stop,
    /// Open a channel of the pane, after stopping the one it has.
    Open { url: String, token: Option<String> },
}

/// A [`ChannelAction`] over sequences.
pub enum ChannelActionView {
    Keep,
    Stop,
    Open { url: Seq<char>, token: Option<Seq<char>> },
}

impl DeepView for ChannelAction {
    type V = ChannelActionView;

    open spec fn deep_view(&self) -> ChannelActionView {
        match self {
            ChannelAction::Keep => ChannelActionView::Keep,
            ChannelAction::Stop => ChannelActionView::Stop,
            ChannelAction::Open { url, token } => ChannelActionView::Open {
                url: url@,
                token: token.deep_view(),
            },
        }
    }
}

/// The channels after a user variable of a pane.
pub open spec fn channels_after(
    channels: Map<u64, Seq<char>>,
    pane_id: u64,
    request: ManagedStartView,
) -> Map<u64, Seq<char>> {
    match request {
        ManagedStartView::Pass => channels,
        ManagedStartView::StopAndPass => channels.remove(pane_id),
        ManagedStartView::Stop => channels.remove(pane_id),
        ManagedStartView::Start { url, token } => channels.insert(pane_id, url),
    }
}

/// What has to be done about the pane's channel: it is stopped where it was open, and opened where
/// it was not open to this address.
pub open spec fn channel_action(
    channels: Map<u64, Seq<char>>,
    pane_id: u64,
    request: ManagedStartView,
) -> ChannelActionView {
    match request {
        ManagedStartView::Pass => ChannelActionView::Keep,
        ManagedStartView::StopAndPass => if channels.dom().contains(pane_id) {
            ChannelActionView::Stop
        } else {
            ChannelActionView::Keep
        },
        ManagedStartView::Stop => if channels.dom().contains(pane_id) {
            ChannelActionView::Stop
        } else {
            ChannelActionView::Keep
        },
        ManagedStartView::Start { url, token } => if channels.dom().contains(pane_id)
            && channels[pane_id] == url {
            ChannelActionView::Keep
        } else {
            ChannelActionView::Open { url, token }
        },
    }
}

/// The adapters are shown the signal: it was not about the channel, and no channel is open.
pub open spec fn adapters_asked(
    channels: Map<u64, Seq<char>>,
    pane_id: u64,
    request: ManagedStartView,
) -> bool {
    (request is Pass || request is StopAndPass) && !channels_after(
        channels,
        pane_id,
        request,
    ).dom().contains(pane_id)
}

/// Takes in a user variable of a pane. It may be about the pane's app-server channel; while a channel
/// is open, nothing else is read from variables. Otherwise the adapters are asked. Gives back what to
/// do about the channel, and the events that the adapters saw.
pub fn observe_user_var_signal(
    channels: &mut CodexChannels,
    registry: &mut AgentAdapterRegistry,
    pane_id: u64,
    name: &str,
    value: &str,
    user_vars: &UserVars,
) -> (r: (ChannelAction, Vec<AgentEvent>))
    ensures
        ({
            let request = managed_start(name@, value@, user_vars@);
            let signal = AgentSignal::UserVar {
                pane_key: decimal_of(pane_id as nat),
                name: name@,
                value: value@,
                user_vars: user_vars@,
            };
            &&& r.0.deep_view() == channel_action(old(channels)@, pane_id, request)
            &&& final(channels)@ == channels_after(old(channels)@, pane_id, request)
            &&& if adapters_asked(old(channels)@, pane_id, request) {
                &&& have_seen(old(registry).adapters@, final(registry).adapters@, signal)
                &&& r.1.deep_view() == events_of(old(registry).adapters@, seq![signal])
            } else {
                &&& final(registry).adapters@ == old(registry).adapters@
                &&& r.1@.len() == 0
            }
        }),
{
    let action = match managed_start_request(name, value, user_vars) {
        ManagedStart::Start { url, token } => {
            return match channels.start_or_replace(pane_id, url.as_str()) {
                ChannelChange::Kept => (ChannelAction::Keep, Vec::new()),
                _ => (ChannelAction::Open { url, token }, Vec::new()),
            };
        },
        ManagedStart::Stop => {
            return match channels.stop(pane_id) {
                Some(_) => (ChannelAction::Stop, Vec::new()),
                None => (ChannelAction::Keep, Vec::new()),
            };
        },
        ManagedStart::StopAndPass => match channels.stop(pane_id) {
            Some(_) => ChannelAction::Stop,
            None => ChannelAction::Keep,
        },
        ManagedStart::Pass => ChannelAction::Keep,
    };
    if channels.is_open(pane_id) {
        return (action, Vec::new());
    }
    let pane_key = decimal(pane_id as u128);
    let events = registry.observe_user_var(pane_key.as_str(), name, value, user_vars);
    (action, events)
}

/// Takes in a user variable of a pane: what the adapters see in it is taken in as guesses about the
/// session that the pane is bound to. Gives back what to do about the pane's app-server channel, and
/// whether writing has to be arranged now.
pub fn process_agent_user_var_signal(
    bridge: &mut AgentStatusBridge,
    channels: &mut CodexChannels,
    registry: &mut AgentAdapterRegistry,
    pane_id: u64,
    name: &str,
    value: &str,
    user_vars: &UserVars,
    binding: &Option<(String, String)>,
    stored: Option<SessionStatusSnapshot>,
) -> (r: (ChannelAction, bool))
    requires
        old(bridge).wf(),
    ensures
        final(bridge).wf(),
        ({
            let request = managed_start(name@, value@, user_vars@);
            let signal = AgentSignal::UserVar {
                pane_key: decimal_of(pane_id as nat),
                name: name@,
                value: value@,
                user_vars: user_vars@,
            };
            &&& r.0.deep_view() == channel_action(old(channels)@, pane_id, request)
            &&& final(channels)@ == channels_after(old(channels)@, pane_id, request)
            &&& if adapters_asked(old(channels)@, pane_id, request) {
                &&& have_seen(old(registry).adapters@, final(registry).adapters@, signal)
                &&& final(bridge).board() == pane_processed(
                    old(bridge).board(),
                    binding_view(*binding),
                    stored.deep_view(),
                    events_of(old(registry).adapters@, seq![signal]),
                    SessionStatusSource::Heuristic,
                    SessionStatusConfidence::Low,
                )
                &&& r.1 == (final(bridge).flush_scheduled && !old(bridge).flush_scheduled)
            } else {
                &&& final(registry).adapters@ == old(registry).adapters@
                &&& final(bridge).board() == old(bridge).board()
                &&& !r.1
            }
        }),
{
    let (action, events) = observe_user_var_signal(
        channels,
        registry,
        pane_id,
        name,
        value,
        user_vars,
    );
    let arrange = bridge.process_agent_events_for_pane(
        binding,
        stored,
        &events,
        SessionStatusSource::Heuristic,
        SessionStatusConfidence::Low,
    );
    (action, arrange)
}

// ---------------------------------------------------------------------------
// Laws
// ---------------------------------------------------------------------------

/// The write that waits for a session.
pub open spec fn waiting(pending: Seq<PendingView>, key: Seq<char>) -> Option<PendingView>
    decreases pending.len(),
{
    if pending.len() == 0 {
        None
    } else if write_key(pending[0]) == key {
        Some(pending[0])
    } else {
        waiting(pending.skip(1), key)
    }
}

/// Letting a write wait keeps at most one for each session.
pub proof fn law_enqueued_is_one_per_session(pending: Seq<PendingView>, write: PendingView)
    requires
        one_per_session(pending),
    ensures
        one_per_session(enqueued(pending, write)),
{
    lemma_enqueued_keys(pending, write);
}

/// The keys stay in their places, and at most one is added at the end.
proof fn lemma_enqueued_keys(pending: Seq<PendingView>, write: PendingView)
    ensures
        ({
            let after = enqueued(pending, write);
            &&& pending.len() <= after.len() <= pending.len() + 1
            &&& forall|i: int|
                0 <= i < pending.len() ==> write_key(#[trigger] after[i]) == write_key(pending[i])
            &&& after.len() > pending.len() ==> write_key(after.last()) == write_key(write)
                && forall|i: int|
                0 <= i < pending.len() ==> write_key(#[trigger] pending[i]) != write_key(write)
        }),
    decreases pending.len(),
{
    if pending.len() > 0 && write_key(pending[0]) != write_key(write) {
        let rest = pending.skip(1);
        lemma_enqueued_keys(rest, write);
        let after = enqueued(pending, write);
        let tail = enqueued(rest, write);
        assert forall|i: int| 0 <= i < pending.len() implies write_key(#[trigger] after[i])
            == write_key(pending[i]) by {
            if i > 0 {
                assert(after[i] == tail[i - 1]);
                assert(rest[i - 1] == pending[i]);
            }
        }
        if after.len() > pending.len() {
            assert(after.last() == tail.last());
            assert forall|i: int| 0 <= i < pending.len() implies write_key(#[trigger] pending[i])
                != write_key(write) by {
                if i > 0 {
                    assert(rest[i - 1] == pending[i]);
                }
            }
        }
    }
}

/// What waits for a session is what was last let wait for it; other sessions are not touched.
pub proof fn law_latest_write_waits(pending: Seq<PendingView>, write: PendingView, key: Seq<char>)
    ensures
        waiting(enqueued(pending, write), key) == if key == write_key(write) {
            Some(write)
        } else {
            waiting(pending, key)
        },
    decreases pending.len(),
{
    if pending.len() == 0 {
        assert(seq![write].skip(1) =~= Seq::<PendingView>::empty());
        reveal_with_fuel(waiting, 2);
    } else if write_key(pending[0]) == write_key(write) {
        assert((seq![write] + pending.skip(1)).skip(1) =~= pending.skip(1));
    } else {
        law_latest_write_waits(pending.skip(1), write, key);
        assert((seq![pending[0]] + enqueued(pending.skip(1), write)).skip(1) =~= enqueued(
            pending.skip(1),
            write,
        ));
    }
}

/// Events of one session change no other session's status.
pub proof fn law_events_touch_one_session(
    board: Board,
    project_id: Seq<char>,
    session_id: Seq<char>,
    initial: SnapshotView,
    events: Seq<AgentEventView>,
    source: SessionStatusSource,
    confidence: SessionStatusConfidence,
    other: Seq<char>,
)
    requires
        other != status_key(project_id, session_id),
    ensures
        known(
            processed(board, project_id, session_id, initial, events, source, confidence).sessions,
            other,
        ) == known(board.sessions, other),
        waiting(
            processed(board, project_id, session_id, initial, events, source, confidence).pending,
            other,
        ) == waiting(board.pending, other),
{
    let begun = Board {
        sessions: registered(board.sessions, status_key(project_id, session_id), initial),
        pending: board.pending,
        arranged: board.arranged,
        rejected: board.rejected,
    };
    lemma_after_all_touches_one(begun, project_id, session_id, events, source, confidence, other);
}

proof fn lemma_after_all_touches_one(
    board: Board,
    project_id: Seq<char>,
    session_id: Seq<char>,
    events: Seq<AgentEventView>,
    source: SessionStatusSource,
    confidence: SessionStatusConfidence,
    other: Seq<char>,
)
    requires
        other != status_key(project_id, session_id),
    ensures
        ({
            let after = board_after_all(board, project_id, session_id, events, source, confidence);
            &&& known(after.sessions, other) == known(board.sessions, other)
            &&& waiting(after.pending, other) == waiting(board.pending, other)
        }),
    decreases events.len(),
{
    if events.len() > 0 {
        let before = board_after_all(
            board,
            project_id,
            session_id,
            events.drop_last(),
            source,
            confidence,
        );
        lemma_after_all_touches_one(
            board,
            project_id,
            session_id,
            events.drop_last(),
            source,
            confidence,
            other,
        );
        let next = event_snapshot(events.last(), source, confidence);
        law_latest_write_waits(
            before.pending,
            PendingView { project_id, session_id, snapshot: next },
            other,
        );
    }
}

/// Whatever waits for a session is its present status, where this held before.
pub proof fn law_waiting_write_is_current(
    board: Board,
    project_id: Seq<char>,
    session_id: Seq<char>,
    event: AgentEventView,
    source: SessionStatusSource,
    confidence: SessionStatusConfidence,
)
    requires
        ({
            let key = status_key(project_id, session_id);
            waiting(board.pending, key) matches Some(write) ==> known(board.sessions, key) == Some(
                write.snapshot,
            )
        }),
    ensures
        ({
            let key = status_key(project_id, session_id);
            let after = board_after(board, project_id, session_id, event, source, confidence);
            waiting(after.pending, key) matches Some(write) ==> known(after.sessions, key) == Some(
                write.snapshot,
            )
        }),
{
    let key = status_key(project_id, session_id);
    let next = event_snapshot(event, source, confidence);
    law_latest_write_waits(
        board.pending,
        PendingView { project_id, session_id, snapshot: next },
        key,
    );
}

/// Every event is taken over, changes nothing or is noted as rejected, and what was noted stays
/// noted: an event adds at most one rejection, and exactly where its change is not allowed.
pub proof fn law_rejections_are_noted(
    board: Board,
    project_id: Seq<char>,
    session_id: Seq<char>,
    event: AgentEventView,
    source: SessionStatusSource,
    confidence: SessionStatusConfidence,
)
    ensures
        ({
            let key = status_key(project_id, session_id);
            let next = event_snapshot(event, source, confidence);
            let after = board_after(board, project_id, session_id, event, source, confidence);
            match update_answer(board.sessions, key, next) {
                Ok(_) => after.rejected == board.rejected,
                Err(error) => after == (Board { rejected: board.rejected.push(error), ..board }),
            }
        }),
{
}

/// While a pane's app-server channel is open, its user variables change no status, unless they are
/// about the channel itself.
pub proof fn law_open_channel_silences_variables(
    channels: Map<u64, Seq<char>>,
    pane_id: u64,
    name: Seq<char>,
    value: Seq<char>,
    vars: Map<Seq<char>, Seq<char>>,
)
    requires
        channels.dom().contains(pane_id),
        name != "kaku_codex_app_server_ws"@,
    ensures
        !adapters_asked(channels, pane_id, managed_start(name, value, vars)),
        channels_after(channels, pane_id, managed_start(name, value, vars)) == channels,
{
}

} // verus!
