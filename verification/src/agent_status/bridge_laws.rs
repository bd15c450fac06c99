//! What events do to the sessions' statuses and to the writes that wait, from the event to the write.
use vstd::prelude::*;

use crate::agent_status::bridge::{
    adapters_asked, board_after, board_after_all, channel_action, channels_after, enqueued,
    initial_snapshot, law_latest_write_waits, pane_processed, processed, registered, status_key,
    waiting, Board, ChannelActionView, PendingView,
};
use crate::agent_status::events::{
    AgentEventView, SessionStatus, SessionStatusConfidence, SessionStatusSource,
};
use crate::agent_status::manager::{event_snapshot, known, SnapshotView};
use crate::codex_app_server::ManagedStartView;

verus! {

/// Two sessions of one project have different keys, and so have the sessions of one id in two
/// projects.
pub proof fn law_keys_tell_sessions_apart(a: Seq<char>, b: Seq<char>, c: Seq<char>)
    requires
        a != b,
    ensures
        status_key(c, a) != status_key(c, b),
        status_key(a, c) != status_key(b, c),
{
    let n = c.len() + "/"@.len();
    if status_key(c, a) == status_key(c, b) {
        assert(status_key(c, a).skip(n as int) =~= a);
        assert(status_key(c, b).skip(n as int) =~= b);
    }
    if status_key(a, c) == status_key(b, c) {
        assert(status_key(a, c).len() == a.len() + n);
        assert(status_key(b, c).len() == b.len() + n);
        assert(status_key(a, c).take(a.len() as int) =~= a);
        assert(status_key(b, c).take(b.len() as int) =~= b);
    }
}

/// An event that changes a session's status leaves exactly one thing to write for the session: its
/// project, its id and the status that it has now; and the writing is arranged. An event that
/// changes no status leaves the waiting writes as they were.
pub proof fn law_changes_are_written(
    board: Board,
    project_id: Seq<char>,
    session_id: Seq<char>,
    event: AgentEventView,
    source: SessionStatusSource,
    confidence: SessionStatusConfidence,
)
    ensures
        ({
            let key = status_key(project_id, session_id);
            let after = board_after(board, project_id, session_id, event, source, confidence);
            let was = known(board.sessions, key);
            let is_now = known(after.sessions, key);
            &&& was != is_now ==> {
                &&& is_now is Some
                &&& waiting(after.pending, key) == Some(
                    PendingView { project_id, session_id, snapshot: is_now->0 },
                )
                &&& after.arranged
                &&& after.rejected == board.rejected
            }
            &&& was == is_now ==> after.pending == board.pending && after.arranged == board.arranged
            &&& after.pending.len() <= board.pending.len() + 1
        }),
{
    let key = status_key(project_id, session_id);
    let next = event_snapshot(event, source, confidence);
    let write = PendingView { project_id, session_id, snapshot: next };
    law_latest_write_waits(board.pending, write, key);
    lemma_enqueued_len(board.pending, write);
}

proof fn lemma_enqueued_len(pending: Seq<PendingView>, write: PendingView)
    ensures
        enqueued(pending, write).len() <= pending.len() + 1,
    decreases pending.len(),
{
    if pending.len() > 0 {
        lemma_enqueued_len(pending.skip(1), write);
    }
}

/// The board after one event of a session that is known already.
proof fn lemma_one_event(
    board: Board,
    project_id: Seq<char>,
    session_id: Seq<char>,
    initial: SnapshotView,
    event: AgentEventView,
    source: SessionStatusSource,
    confidence: SessionStatusConfidence,
)
    ensures
        processed(board, project_id, session_id, initial, seq![event], source, confidence)
            == board_after(
            Board {
                sessions: registered(
                    board.sessions,
                    status_key(project_id, session_id),
                    initial,
                ),
                ..board
            },
            project_id,
            session_id,
            event,
            source,
            confidence,
        ),
{
    let events = seq![event];
    let begun = Board {
        sessions: registered(
            board.sessions,
            status_key(project_id, session_id),
            initial,
        ),
        ..board
    };
    assert(events.drop_last() =~= Seq::<AgentEventView>::empty());
    assert(events.last() == event);
    assert(board_after_all(
        begun,
        project_id,
        session_id,
        events.drop_last(),
        source,
        confidence,
    ) == begun);
}

/// A refused approval and a failed task reach the store: the session that worked or waited is in
/// status Error, with a reason, and exactly that is left to write for it.
pub proof fn law_failures_are_written(
    board: Board,
    project_id: Seq<char>,
    session_id: Seq<char>,
    stored: Option<SnapshotView>,
    provider: Seq<char>,
    reason: Seq<char>,
    source: SessionStatusSource,
    confidence: SessionStatusConfidence,
)
    requires
        known(board.sessions, status_key(project_id, session_id)) matches Some(before) && (
        before.status is Loading || before.status is Running || before.status is NeedApprove),
    ensures
        ({
            let key = status_key(project_id, session_id);
            let refused = pane_processed(
                board,
                Some((project_id, session_id)),
                stored,
                seq![AgentEventView::ApprovalResolved { provider, approved: false }],
                source,
                confidence,
            );
            let failed = pane_processed(
                board,
                Some((project_id, session_id)),
                stored,
                seq![AgentEventView::TaskFailed { provider, reason: Some(reason) }],
                source,
                confidence,
            );
            let error = SnapshotView {
                status: SessionStatus::Error,
                source,
                confidence,
                reason: Some(reason),
            };
            &&& known(refused.sessions, key) matches Some(snapshot)
            &&& snapshot.status is Error
            &&& snapshot.reason is Some
            &&& waiting(refused.pending, key) == Some(
                PendingView { project_id, session_id, snapshot },
            )
            &&& refused.arranged
            &&& known(failed.sessions, key) == Some(error)
            &&& waiting(failed.pending, key) == Some(
                PendingView { project_id, session_id, snapshot: error },
            )
            &&& failed.arranged
        }),
{
    let key = status_key(project_id, session_id);
    let refusal = AgentEventView::ApprovalResolved { provider, approved: false };
    let failure = AgentEventView::TaskFailed { provider, reason: Some(reason) };
    let initial = initial_snapshot(
        stored,
        SessionStatusSource::Heuristic,
        SessionStatusConfidence::Low,
    );
    lemma_one_event(board, project_id, session_id, initial, refusal, source, confidence);
    lemma_one_event(board, project_id, session_id, initial, failure, source, confidence);
    law_changes_are_written(board, project_id, session_id, refusal, source, confidence);
    law_changes_are_written(board, project_id, session_id, failure, source, confidence);
}

/// A session that was not seen before starts from the status that is stored for it, or else idle:
/// a task that starts makes it load, unless it is stored as running, waiting or done, and in that
/// case it keeps the stored status.
pub proof fn law_new_sessions_start_from_the_store(
    board: Board,
    project_id: Seq<char>,
    session_id: Seq<char>,
    stored: Option<SnapshotView>,
    provider: Seq<char>,
    source: SessionStatusSource,
    confidence: SessionStatusConfidence,
)
    requires
        known(board.sessions, status_key(project_id, session_id)) is None,
    ensures
        ({
            let key = status_key(project_id, session_id);
            let after = pane_processed(
                board,
                Some((project_id, session_id)),
                stored,
                seq![AgentEventView::TaskStarted { provider }],
                source,
                confidence,
            );
            let loading = SnapshotView {
                status: SessionStatus::Loading,
                source,
                confidence,
                reason: None,
            };
            &&& stored is None ==> known(after.sessions, key) == Some(loading) && waiting(
                after.pending,
                key,
            ) == Some(PendingView { project_id, session_id, snapshot: loading })
            &&& stored matches Some(snapshot) ==> {
                &&& snapshot.status is Idle || snapshot.status is Error || snapshot.status is Loading
                    ==> known(after.sessions, key) == Some(loading)
                &&& snapshot.status is Running || snapshot.status is NeedApprove
                    || snapshot.status is Done ==> known(after.sessions, key) == Some(snapshot)
                    && after.pending == board.pending
            }
        }),
{
    let key = status_key(project_id, session_id);
    let event = AgentEventView::TaskStarted { provider };
    let initial = initial_snapshot(
        stored,
        SessionStatusSource::Heuristic,
        SessionStatusConfidence::Low,
    );
    lemma_one_event(board, project_id, session_id, initial, event, source, confidence);
    let begun = Board {
        sessions: registered(board.sessions, key, initial),
        ..board
    };
    law_changes_are_written(begun, project_id, session_id, event, source, confidence);
}

/// Events of a pane that is bound to no session, and no events at all, change nothing.
pub proof fn law_unbound_panes_change_nothing(
    board: Board,
    binding: Option<(Seq<char>, Seq<char>)>,
    stored: Option<SnapshotView>,
    events: Seq<AgentEventView>,
    source: SessionStatusSource,
    confidence: SessionStatusConfidence,
)
    requires
        binding is None || events.len() == 0,
    ensures
        pane_processed(board, binding, stored, events, source, confidence) == board,
{
}

/// Events that come together do what they do one after the other.
pub proof fn law_events_apply_in_order(
    board: Board,
    project_id: Seq<char>,
    session_id: Seq<char>,
    first: Seq<AgentEventView>,
    then: Seq<AgentEventView>,
    source: SessionStatusSource,
    confidence: SessionStatusConfidence,
)
    ensures
        board_after_all(board, project_id, session_id, first + then, source, confidence)
            == board_after_all(
            board_after_all(board, project_id, session_id, first, source, confidence),
            project_id,
            session_id,
            then,
            source,
            confidence,
        ),
    decreases then.len(),
{
    if then.len() == 0 {
        assert(first + then =~= first);
    } else {
        assert((first + then).drop_last() =~= first + then.drop_last());
        assert((first + then).last() == then.last());
        law_events_apply_in_order(
            board,
            project_id,
            session_id,
            first,
            then.drop_last(),
            source,
            confidence,
        );
    }
}

/// A pane has a channel to the address that it asked for last, and none after it asked to stop; no
/// request touches the channel of another pane.
pub proof fn law_channels_follow_requests(
    channels: Map<u64, Seq<char>>,
    pane_id: u64,
    other: u64,
    url: Seq<char>,
    token: Option<Seq<char>>,
)
    requires
        other != pane_id,
    ensures
        ({
            let start = ManagedStartView::Start { url, token };
            let opened = channels_after(channels, pane_id, start);
            &&& opened.dom().contains(pane_id)
            &&& opened[pane_id] == url
            &&& opened.dom().contains(other) == channels.dom().contains(other)
            &&& channels.dom().contains(other) ==> opened[other] == channels[other]
            &&& channel_action(channels, pane_id, start) == if channels.dom().contains(pane_id)
                && channels[pane_id] == url {
                ChannelActionView::Keep
            } else {
                ChannelActionView::Open { url, token }
            }
            &&& !adapters_asked(channels, pane_id, start)
        }),
        forall|request: ManagedStartView|
            #![trigger channels_after(channels, pane_id, request)]
            request is Stop || request is StopAndPass ==> {
                &&& !channels_after(channels, pane_id, request).dom().contains(pane_id)
                &&& channel_action(channels, pane_id, request) == if channels.dom().contains(
                    pane_id,
                ) {
                    ChannelActionView::Stop
                } else {
                    ChannelActionView::Keep
                }
                &&& adapters_asked(channels, pane_id, request) == (request is StopAndPass)
                &&& channels_after(channels, pane_id, request).dom().contains(other)
                    == channels.dom().contains(other)
            },
        channels_after(channels, pane_id, ManagedStartView::Pass) == channels,
        channel_action(channels, pane_id, ManagedStartView::Pass) == ChannelActionView::Keep,
        adapters_asked(channels, pane_id, ManagedStartView::Pass) == !channels.dom().contains(
            pane_id,
        ),
{
}

} // verus!
