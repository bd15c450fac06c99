//! The status of every session, and which changes of status are allowed.
use vstd::hash_map::StringHashMap;
use vstd::prelude::*;

use crate::agent_status::events::{
    AgentEvent, AgentEventView, SessionStatus, SessionStatusConfidence, SessionStatusSource,
};
use crate::text::{copy_optional_text, same_optional_text};

verus! {

/// A status with where it came from and why.
#[derive(Debug, PartialEq, Eq)]
pub struct SessionStatusSnapshot {
    pub status: SessionStatus,
    pub source: SessionStatusSource,
    pub confidence: SessionStatusConfidence,
    pub reason: Option<String>,
}

/// A [`SessionStatusSnapshot`] over sequences.
pub struct SnapshotView {
    pub status: SessionStatus,
    pub source: SessionStatusSource,
    pub confidence: SessionStatusConfidence,
    pub reason: Option<Seq<char>>,
}

impl DeepView for SessionStatusSnapshot {
    type V = SnapshotView;

    open spec fn deep_view(&self) -> SnapshotView {
        SnapshotView {
            status: self.status,
            source: self.source,
            confidence: self.confidence,
            reason: self.reason.deep_view(),
        }
    }
}

impl Clone for SessionStatusSnapshot {
    fn clone(&self) -> (r: SessionStatusSnapshot)
        ensures
            r == *self,
    {
        SessionStatusSnapshot {
            status: self.status,
            source: self.source,
            confidence: self.confidence,
            reason: copy_optional_text(&self.reason),
        }
    }
}

impl SessionStatusSnapshot {
    /// A snapshot of these parts.
    pub fn new(
        status: SessionStatus,
        source: SessionStatusSource,
        confidence: SessionStatusConfidence,
        reason: Option<String>,
    ) -> (r: SessionStatusSnapshot)
        ensures
            r == (SessionStatusSnapshot { status, source, confidence, reason }),
    {
        SessionStatusSnapshot { status, source, confidence, reason }
    }

    /// Whether the two snapshots say the same.
    pub fn same_as(&self, other: &SessionStatusSnapshot) -> (r: bool)
        ensures
            r == (self.deep_view() == other.deep_view()),
    {
        self.status == other.status && self.source == other.source && self.confidence
            == other.confidence && same_optional_text(&self.reason, &other.reason)
    }
}

/// A change of a session's status.
#[derive(Debug, PartialEq, Eq)]
pub struct SessionStatusTransition {
    pub session_id: String,
    pub previous: SessionStatusSnapshot,
    pub current: SessionStatusSnapshot,
}

/// A [`SessionStatusTransition`] over sequences.
pub struct TransitionView {
    pub session_id: Seq<char>,
    pub previous: SnapshotView,
    pub current: SnapshotView,
}

impl DeepView for SessionStatusTransition {
    type V = TransitionView;

    open spec fn deep_view(&self) -> TransitionView {
        TransitionView {
            session_id: self.session_id@,
            previous: self.previous.deep_view(),
            current: self.current.deep_view(),
        }
    }
}

impl Clone for SessionStatusTransition {
    fn clone(&self) -> (r: SessionStatusTransition)
        ensures
            r == *self,
    {
        SessionStatusTransition {
            session_id: self.session_id.clone(),
            previous: self.previous.clone(),
            current: self.current.clone(),
        }
    }
}

/// Why a status was not changed.
#[derive(Debug, PartialEq, Eq)]
pub enum SessionStatusError {
    SessionNotRegistered { session_id: String },
    InvalidTransition { session_id: String, from: SessionStatus, to: SessionStatus },
}

/// A [`SessionStatusError`] over sequences.
pub enum StatusErrorView {
    SessionNotRegistered { session_id: Seq<char> },
    InvalidTransition { session_id: Seq<char>, from: SessionStatus, to: SessionStatus },
}

impl DeepView for SessionStatusError {
    type V = StatusErrorView;

    open spec fn deep_view(&self) -> StatusErrorView {
        match self {
            SessionStatusError::SessionNotRegistered { session_id } => {
                StatusErrorView::SessionNotRegistered { session_id: session_id@ }
            },
            SessionStatusError::InvalidTransition { session_id, from, to } => {
                StatusErrorView::InvalidTransition { session_id: session_id@, from: *from, to: *to }
            },
        }
    }
}

impl Clone for SessionStatusError {
    fn clone(&self) -> (r: SessionStatusError)
        ensures
            r == *self,
    {
        match self {
            SessionStatusError::SessionNotRegistered { session_id } => {
                SessionStatusError::SessionNotRegistered { session_id: session_id.clone() }
            },
            SessionStatusError::InvalidTransition { session_id, from, to } => {
                SessionStatusError::InvalidTransition {
                    session_id: session_id.clone(),
                    from: *from,
                    to: *to,
                }
            },
        }
    }
}

/// The words of an error.
pub open spec fn error_message(error: StatusErrorView) -> Seq<char> {
    match error {
        StatusErrorView::SessionNotRegistered { session_id } => "session not registered: "@
            + session_id,
        StatusErrorView::InvalidTransition { session_id, from, to } => {
            "invalid session status transition for "@ + session_id + ": "@ + from.storage_text()
                + " -> "@ + to.storage_text()
        },
    }
}

impl SessionStatusError {
    /// The words of the error.
    pub fn message(&self) -> (r: String)
        ensures
            r@ == error_message(self.deep_view()),
    {
        match self {
            SessionStatusError::SessionNotRegistered { session_id } => {
                let mut text = "session not registered: ".to_owned();
                text.append(session_id.as_str());
                text
            },
            SessionStatusError::InvalidTransition { session_id, from, to } => {
                let mut text = "invalid session status transition for ".to_owned();
                text.append(session_id.as_str());
                text.append(": ");
                text.append(from.as_storage_str());
                text.append(" -> ");
                text.append(to.as_storage_str());
                text
            },
        }
    }
}

/// The status that an event leads to, and the reason that goes with it.
pub open spec fn status_for(event: AgentEventView) -> (SessionStatus, Option<Seq<char>>) {
    match event {
        AgentEventView::TaskStarted { .. } => (SessionStatus::Loading, None),
        AgentEventView::TaskOutput { .. } => (SessionStatus::Running, None),
        AgentEventView::ApprovalRequired { provider, detail } => (
            SessionStatus::NeedApprove,
            detail,
        ),
        AgentEventView::ApprovalResolved { provider, approved } => if approved {
            (SessionStatus::Running, None)
        } else {
            (SessionStatus::Error, Some("approval rejected or timed out"@))
        },
        AgentEventView::TaskCompleted { .. } => (SessionStatus::Done, None),
        AgentEventView::TaskFailed { provider, reason } => (SessionStatus::Error, reason),
    }
}

/// The status that an event leads to, and the reason that goes with it.
pub fn map_agent_event_to_status(event: &AgentEvent) -> (r: (SessionStatus, Option<String>))
    ensures
        (r.0, r.1.deep_view()) == status_for(event.deep_view()),
{
    match event {
        AgentEvent::TaskStarted { .. } => (SessionStatus::Loading, None),
        AgentEvent::TaskOutput { .. } => (SessionStatus::Running, None),
        AgentEvent::ApprovalRequired { provider, detail } => (
            SessionStatus::NeedApprove,
            copy_optional_text(detail),
        ),
        AgentEvent::ApprovalResolved { provider, approved } => {
            if *approved {
                (SessionStatus::Running, None)
            } else {
                (SessionStatus::Error, Some("approval rejected or timed out".to_owned()))
            }
        },
        AgentEvent::TaskCompleted { .. } => (SessionStatus::Done, None),
        AgentEvent::TaskFailed { provider, reason } => (
            SessionStatus::Error,
            copy_optional_text(reason),
        ),
    }
}

/// The changes of status that are allowed. Staying is always allowed. A finished session has to
/// become idle before it can load again.
pub open spec fn transition_allowed(from: SessionStatus, to: SessionStatus) -> bool {
    ||| from == to
    ||| match from {
        SessionStatus::Idle => to is Loading || to is Running,
        SessionStatus::Loading => to is Idle || to is Running || to is Done || to is Error,
        SessionStatus::Running => to is Idle || to is NeedApprove || to is Done || to is Error,
        SessionStatus::NeedApprove => to is Idle || to is Running || to is Error,
        SessionStatus::Done => to is Idle,
        SessionStatus::Error => to is Idle || to is Loading,
    }
}

/// Whether a session may change from one status to the other.
pub fn is_transition_allowed(from: SessionStatus, to: SessionStatus) -> (r: bool)
    ensures
        r == transition_allowed(from, to),
{
    if from == to {
        return true;
    }
    match from {
        SessionStatus::Idle => matches!(to, SessionStatus::Loading | SessionStatus::Running),
        SessionStatus::Loading => matches!(
            to,
            SessionStatus::Idle | SessionStatus::Running | SessionStatus::Done
                | SessionStatus::Error
        ),
        SessionStatus::Running => matches!(
            to,
            SessionStatus::Idle | SessionStatus::NeedApprove | SessionStatus::Done
                | SessionStatus::Error
        ),
        SessionStatus::NeedApprove => matches!(
            to,
            SessionStatus::Idle | SessionStatus::Running | SessionStatus::Error
        ),
        SessionStatus::Done => matches!(to, SessionStatus::Idle),
        SessionStatus::Error => matches!(to, SessionStatus::Idle | SessionStatus::Loading),
    }
}

/// The statuses of the registered sessions.
pub struct SessionStatusManager {
    sessions: StringHashMap<SessionStatusSnapshot>,
}

impl View for SessionStatusManager {
    type V = Map<Seq<char>, SnapshotView>;

    closed spec fn view(&self) -> Map<Seq<char>, SnapshotView> {
        self.sessions@.map_values(|snapshot: SessionStatusSnapshot| snapshot.deep_view())
    }
}

/// What is known of a session.
pub open spec fn known(sessions: Map<Seq<char>, SnapshotView>, id: Seq<char>) -> Option<
    SnapshotView,
> {
    if sessions.dom().contains(id) {
        Some(sessions[id])
    } else {
        None
    }
}

/// What an update of a session's status answers: an error where the session is not known or the
/// change is not allowed, nothing where the snapshot says the same already, and else the change.
pub open spec fn update_answer(
    sessions: Map<Seq<char>, SnapshotView>,
    id: Seq<char>,
    next: SnapshotView,
) -> Result<Option<TransitionView>, StatusErrorView> {
    match known(sessions, id) {
        None => Err(StatusErrorView::SessionNotRegistered { session_id: id }),
        Some(current) => if current == next {
            Ok(None)
        } else if !transition_allowed(current.status, next.status) {
            Err(
                StatusErrorView::InvalidTransition {
                    session_id: id,
                    from: current.status,
                    to: next.status,
                },
            )
        } else {
            Ok(Some(TransitionView { session_id: id, previous: current, current: next }))
        },
    }
}

/// The sessions after an update: the snapshot is taken over exactly where a change was answered.
pub open spec fn updated(
    sessions: Map<Seq<char>, SnapshotView>,
    id: Seq<char>,
    next: SnapshotView,
) -> Map<Seq<char>, SnapshotView> {
    match update_answer(sessions, id, next) {
        Ok(Some(_)) => sessions.insert(id, next),
        _ => sessions,
    }
}

/// The snapshot that an event leads to.
pub open spec fn event_snapshot(
    event: AgentEventView,
    source: SessionStatusSource,
    confidence: SessionStatusConfidence,
) -> SnapshotView {
    SnapshotView {
        status: status_for(event).0,
        source,
        confidence,
        reason: status_for(event).1,
    }
}

/// An answer to an update, over sequences.
pub open spec fn answer_view(
    answer: Result<Option<SessionStatusTransition>, SessionStatusError>,
) -> Result<Option<TransitionView>, StatusErrorView> {
    match answer {
        Ok(Some(transition)) => Ok(Some(transition.deep_view())),
        Ok(None) => Ok(None),
        Err(error) => Err(error.deep_view()),
    }
}

impl Default for SessionStatusManager {
    fn default() -> (r: SessionStatusManager)
        ensures
            r@ == Map::<Seq<char>, SnapshotView>::empty(),
    {
        let r = SessionStatusManager { sessions: StringHashMap::new() };
        assert(r@ =~= Map::<Seq<char>, SnapshotView>::empty());
        r
    }
}

impl SessionStatusManager {
    /// Registers a session, or sets the snapshot of one that is registered; gives back the snapshot
    /// that was known before.
    pub fn register_session(&mut self, session_id: &str, snapshot: SessionStatusSnapshot) -> (r:
        Option<SessionStatusSnapshot>)
        ensures
            r.deep_view() == known(old(self)@, session_id@),
            final(self)@ == old(self)@.insert(session_id@, snapshot.deep_view()),
    {
        let ghost before = self@;
        let previous = match self.sessions.get(session_id) {
            Some(snapshot) => Some(snapshot.clone()),
            None => None,
        };
        self.sessions.insert(session_id.to_owned(), snapshot);
        assert(self@ =~= before.insert(session_id@, snapshot.deep_view()));
        previous
    }

    /// Forgets a session; gives back the snapshot that was known.
    pub fn remove_session(&mut self, session_id: &str) -> (r: Option<SessionStatusSnapshot>)
        ensures
            r.deep_view() == known(old(self)@, session_id@),
            final(self)@ == old(self)@.remove(session_id@),
    {
        let ghost before = self@;
        let previous = match self.sessions.get(session_id) {
            Some(snapshot) => Some(snapshot.clone()),
            None => None,
        };
        self.sessions.remove(session_id);
        assert(self@ =~= before.remove(session_id@));
        previous
    }

    /// The snapshot of a session.
    pub fn snapshot(&self, session_id: &str) -> (r: Option<&SessionStatusSnapshot>)
        ensures
            match r {
                Some(snapshot) => known(self@, session_id@) == Some(snapshot.deep_view()),
                None => known(self@, session_id@) is None,
            },
    {
        self.sessions.get(session_id)
    }

    /// Updates a session's status where the change is allowed.
    pub fn update_status(&mut self, session_id: &str, next: SessionStatusSnapshot) -> (r: Result<
        Option<SessionStatusTransition>,
        SessionStatusError,
    >)
        ensures
            answer_view(r) == update_answer(old(self)@, session_id@, next.deep_view()),
            final(self)@ == updated(old(self)@, session_id@, next.deep_view()),
    {
        let current = match self.snapshot(session_id) {
            Some(snapshot) => snapshot.clone(),
            None => {
                return Err(
                    SessionStatusError::SessionNotRegistered { session_id: session_id.to_owned() },
                );
            },
        };
        if current.same_as(&next) {
            return Ok(None);
        }
        if !is_transition_allowed(current.status, next.status) {
            return Err(
                SessionStatusError::InvalidTransition {
                    session_id: session_id.to_owned(),
                    from: current.status,
                    to: next.status,
                },
            );
        }
        self.register_session(session_id, next.clone());
        Ok(
            Some(
                SessionStatusTransition {
                    session_id: session_id.to_owned(),
                    previous: current,
                    current: next,
                },
            ),
        )
    }

    /// Updates a session's status to the one that an event leads to.
    pub fn apply_agent_event(
        &mut self,
        session_id: &str,
        event: &AgentEvent,
        source: SessionStatusSource,
        confidence: SessionStatusConfidence,
    ) -> (r: Result<Option<SessionStatusTransition>, SessionStatusError>)
        ensures
            answer_view(r) == update_answer(
                old(self)@,
                session_id@,
                event_snapshot(event.deep_view(), source, confidence),
            ),
            final(self)@ == updated(
                old(self)@,
                session_id@,
                event_snapshot(event.deep_view(), source, confidence),
            ),
    {
        let (status, reason) = map_agent_event_to_status(event);
        self.update_status(
            session_id,
            SessionStatusSnapshot::new(status, source, confidence, reason),
        )
    }
}

// ---------------------------------------------------------------------------
// Laws
// ---------------------------------------------------------------------------

/// A session waits for an approval only after it was running, finishes only after it was loading or
/// running, and does not load again right after it finished; it can always become idle.
pub proof fn law_transition_rules(from: SessionStatus, to: SessionStatus)
    ensures
        transition_allowed(from, SessionStatus::Idle),
        transition_allowed(from, to) && from != to && to is NeedApprove ==> from is Running,
        transition_allowed(from, to) && from != to && to is Done ==> from is Loading
            || from is Running,
        !transition_allowed(SessionStatus::Done, SessionStatus::Loading),
{
}

/// The same update again changes nothing and is answered with nothing, or with the same error.
pub proof fn law_repeated_update_is_silent(
    sessions: Map<Seq<char>, SnapshotView>,
    id: Seq<char>,
    next: SnapshotView,
)
    ensures
        updated(updated(sessions, id, next), id, next) == updated(sessions, id, next),
        update_answer(sessions, id, next) is Ok ==> update_answer(
            updated(sessions, id, next),
            id,
            next,
        ) == Ok::<Option<TransitionView>, StatusErrorView>(None),
        update_answer(sessions, id, next) is Err ==> update_answer(
            updated(sessions, id, next),
            id,
            next,
        ) == update_answer(sessions, id, next),
{
}

/// An update touches no other session, and registers and forgets none.
pub proof fn law_update_touches_one_session(
    sessions: Map<Seq<char>, SnapshotView>,
    id: Seq<char>,
    next: SnapshotView,
    other: Seq<char>,
)
    requires
        other != id,
    ensures
        known(updated(sessions, id, next), other) == known(sessions, other),
        updated(sessions, id, next).dom() == sessions.dom(),
{
    assert(updated(sessions, id, next).dom() =~= sessions.dom());
}

/// The sessions after events of one session, seen one after the other.
pub open spec fn after_events(
    sessions: Map<Seq<char>, SnapshotView>,
    id: Seq<char>,
    events: Seq<AgentEventView>,
    source: SessionStatusSource,
    confidence: SessionStatusConfidence,
) -> Map<Seq<char>, SnapshotView>
    decreases events.len(),
{
    if events.len() == 0 {
        sessions
    } else {
        updated(
            after_events(sessions, id, events.drop_last(), source, confidence),
            id,
            event_snapshot(events.last(), source, confidence),
        )
    }
}

/// A task that starts, works, waits for an approval, gets it and completes takes an idle session
/// through loading, running, waiting and running again to done.
pub proof fn law_task_runs_its_course(
    sessions: Map<Seq<char>, SnapshotView>,
    id: Seq<char>,
    provider: Seq<char>,
    detail: Option<Seq<char>>,
    source: SessionStatusSource,
    confidence: SessionStatusConfidence,
)
    requires
        known(sessions, id) matches Some(snapshot) && snapshot.status is Idle,
    ensures
        ({
            let begun = seq![
                AgentEventView::TaskStarted { provider },
                AgentEventView::TaskOutput { provider },
            ];
            let asked = begun.push(AgentEventView::ApprovalRequired { provider, detail });
            let granted = asked.push(AgentEventView::ApprovalResolved { provider, approved: true });
            let over = granted.push(AgentEventView::TaskCompleted { provider });
            &&& after_events(sessions, id, begun.take(1), source, confidence)[id].status is Loading
            &&& after_events(sessions, id, begun, source, confidence)[id].status is Running
            &&& after_events(sessions, id, asked, source, confidence)[id].status is NeedApprove
            &&& after_events(sessions, id, granted, source, confidence)[id].status is Running
            &&& after_events(sessions, id, over, source, confidence)[id].status is Done
        }),
{
    let begun = seq![
        AgentEventView::TaskStarted { provider },
        AgentEventView::TaskOutput { provider },
    ];
    let asked = begun.push(AgentEventView::ApprovalRequired { provider, detail });
    let granted = asked.push(AgentEventView::ApprovalResolved { provider, approved: true });
    let over = granted.push(AgentEventView::TaskCompleted { provider });
    assert(begun.take(1).drop_last() =~= Seq::<AgentEventView>::empty());
    assert(after_events(sessions, id, begun.take(1).drop_last(), source, confidence) == sessions);
    assert(begun.drop_last() =~= begun.take(1));
    assert(asked.drop_last() =~= begun);
    assert(granted.drop_last() =~= asked);
    assert(over.drop_last() =~= granted);
}

/// A refused approval and a failed task both end in an error that says why: a session that works or
/// waits is in status Error after either, with the reason of the failure, or with one of its own
/// for the refusal.
pub proof fn law_failures_show(
    sessions: Map<Seq<char>, SnapshotView>,
    id: Seq<char>,
    provider: Seq<char>,
    reason: Option<Seq<char>>,
    source: SessionStatusSource,
    confidence: SessionStatusConfidence,
)
    requires
        known(sessions, id) matches Some(before) && (before.status is Loading
            || before.status is Running || before.status is NeedApprove),
    ensures
        ({
            let refused = AgentEventView::ApprovalResolved { provider, approved: false };
            let after = known(
                updated(sessions, id, event_snapshot(refused, source, confidence)),
                id,
            );
            &&& after is Some
            &&& after->0.status is Error
            &&& after->0.reason is Some
            &&& after->0.reason->0.len() > 0
        }),
        ({
            let failed = AgentEventView::TaskFailed { provider, reason };
            let after = known(updated(sessions, id, event_snapshot(failed, source, confidence)), id);
            after == Some(SnapshotView { status: SessionStatus::Error, source, confidence, reason })
        }),
{
    reveal_strlit("approval rejected or timed out");
}

/// What an event makes of a session that may take its status: a task that starts loads, output and
/// a granted approval mean running, a wanted approval is waited for with its detail, and a
/// completed task is done. No reason is left over from before, and the session takes the source and
/// the confidence that came with the event.
pub proof fn law_events_move_sessions(
    sessions: Map<Seq<char>, SnapshotView>,
    id: Seq<char>,
    provider: Seq<char>,
    detail: Option<Seq<char>>,
    source: SessionStatusSource,
    confidence: SessionStatusConfidence,
)
    requires
        known(sessions, id) is Some,
    ensures
        ({
            let before = known(sessions, id)->0.status;
            let after = |event: AgentEventView|
                known(updated(sessions, id, event_snapshot(event, source, confidence)), id);
            let plain = |status: SessionStatus|
                Some(SnapshotView { status, source, confidence, reason: None });
            &&& before is Idle || before is Loading || before is Error ==> after(
                AgentEventView::TaskStarted { provider },
            ) == plain(SessionStatus::Loading)
            &&& before is Idle || before is Loading || before is Running || before is NeedApprove
                ==> after(AgentEventView::TaskOutput { provider }) == plain(SessionStatus::Running)
            &&& before is Idle || before is Loading || before is Running || before is NeedApprove
                ==> after(AgentEventView::ApprovalResolved { provider, approved: true }) == plain(
                SessionStatus::Running,
            )
            &&& before is Running || before is NeedApprove ==> after(
                AgentEventView::ApprovalRequired { provider, detail },
            ) == Some(
                SnapshotView {
                    status: SessionStatus::NeedApprove,
                    source,
                    confidence,
                    reason: detail,
                },
            )
            &&& before is Loading || before is Running || before is Done ==> after(
                AgentEventView::TaskCompleted { provider },
            ) == plain(SessionStatus::Done)
        }),
{
}

/// An event that a session may not take changes nothing and is answered with an error that names
/// the session, the status that it stays in and the one that was refused: work does not begin again
/// in a finished session, nor output in a failed one; nothing completes before it began or while an
/// approval is awaited; and no approval is awaited where nothing runs.
pub proof fn law_misplaced_events_are_refused(
    sessions: Map<Seq<char>, SnapshotView>,
    id: Seq<char>,
    provider: Seq<char>,
    detail: Option<Seq<char>>,
    source: SessionStatusSource,
    confidence: SessionStatusConfidence,
)
    requires
        known(sessions, id) is Some,
    ensures
        ({
            let before = known(sessions, id)->0.status;
            let refused = |event: AgentEventView, to: SessionStatus|
                {
                    let next = event_snapshot(event, source, confidence);
                    &&& updated(sessions, id, next) == sessions
                    &&& update_answer(sessions, id, next) == Err::<
                        Option<TransitionView>,
                        StatusErrorView,
                    >(StatusErrorView::InvalidTransition { session_id: id, from: before, to })
                };
            &&& before is Done || before is Running || before is NeedApprove ==> refused(
                AgentEventView::TaskStarted { provider },
                SessionStatus::Loading,
            )
            &&& before is Done || before is Error ==> refused(
                AgentEventView::TaskOutput { provider },
                SessionStatus::Running,
            )
            &&& before is Idle || before is Loading || before is Done || before is Error ==> refused(
                AgentEventView::ApprovalRequired { provider, detail },
                SessionStatus::NeedApprove,
            )
            &&& before is Done || before is Error ==> refused(
                AgentEventView::ApprovalResolved { provider, approved: true },
                SessionStatus::Running,
            )
            &&& before is Idle || before is NeedApprove || before is Error ==> refused(
                AgentEventView::TaskCompleted { provider },
                SessionStatus::Done,
            )
            &&& before is Idle || before is Done ==> refused(
                AgentEventView::TaskFailed { provider, reason: detail },
                SessionStatus::Error,
            )
            &&& before is Idle || before is Done ==> refused(
                AgentEventView::ApprovalResolved { provider, approved: false },
                SessionStatus::Error,
            )
        }),
{
}

/// A change that is answered names the session, what it was and what it is now; a session that was
/// never registered is answered with an error that names it, and is not registered by it.
pub proof fn law_answers_say_what_changed(
    sessions: Map<Seq<char>, SnapshotView>,
    id: Seq<char>,
    next: SnapshotView,
)
    ensures
        update_answer(sessions, id, next) matches Ok(Some(change)) ==> {
            &&& change.session_id == id
            &&& known(sessions, id) == Some(change.previous)
            &&& change.current == next
            &&& known(updated(sessions, id, next), id) == Some(next)
            &&& change.previous != change.current
        },
        known(sessions, id) is None ==> {
            &&& update_answer(sessions, id, next) == Err::<Option<TransitionView>, StatusErrorView>(
                StatusErrorView::SessionNotRegistered { session_id: id },
            )
            &&& updated(sessions, id, next) == sessions
        },
        update_answer(sessions, id, next) is Ok && known(sessions, id) is Some ==> known(
            updated(sessions, id, next),
            id,
        ) == Some(next),
        known(sessions, id) is Some && known(sessions, id)->0.status == next.status
            ==> update_answer(sessions, id, next) is Ok,
{
}

/// Each step of a session's life is open to it: from idle to loading or running, from loading to
/// running, done or error, from running to waiting, done or error, from waiting to running or
/// error, and from an error to loading again.
pub proof fn law_life_of_a_session()
    ensures
        forall|to: SessionStatus|
            #[trigger] transition_allowed(SessionStatus::Idle, to) <==> to is Idle || to is Loading
                || to is Running,
        forall|to: SessionStatus|
            #[trigger] transition_allowed(SessionStatus::Loading, to) <==> !(to is NeedApprove),
        forall|to: SessionStatus|
            #[trigger] transition_allowed(SessionStatus::Running, to) <==> !(to is Loading),
        forall|to: SessionStatus|
            #[trigger] transition_allowed(SessionStatus::NeedApprove, to) <==> !(to is Loading)
                && !(to is Done),
        forall|to: SessionStatus|
            #[trigger] transition_allowed(SessionStatus::Done, to) <==> to is Done || to is Idle,
        forall|to: SessionStatus|
            #[trigger] transition_allowed(SessionStatus::Error, to) <==> to is Error || to is Idle
                || to is Loading,
{
}

/// The message of an error names the session, and for a change that is not allowed the status that
/// the session has and the one that was refused, in this order.
pub proof fn law_error_messages(id: Seq<char>, from: SessionStatus, to: SessionStatus)
    ensures
        error_message(StatusErrorView::SessionNotRegistered { session_id: id })
            == "session not registered: "@ + id,
        error_message(StatusErrorView::InvalidTransition { session_id: id, from, to })
            == "invalid session status transition for "@ + id + ": "@ + from.storage_text()
            + " -> "@ + to.storage_text(),
{
}

} // verus!
