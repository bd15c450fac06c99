//! What holds of the statuses in the sidebar: how each is written, read and shown, and when it goes
//! out of date.
use vstd::prelude::*;

use crate::agent_status::adapters::codex::var_set;
use crate::agent_status::codex_context::{codex_command, codex_process};
use crate::agent_status::events::{
    law_confidence_reads_back, law_source_reads_back, law_status_reads_back, normalized,
    SessionStatus, SessionStatusConfidence, SessionStatusSource,
};
use crate::agent_status::manager::SnapshotView;
use crate::sidebar::model::SessionView;
use crate::sidebar::status::{
    codex_pane, confidence_of, guessed_under_way, nanos_since, normal_status, out_of_date,
    rfc3339_moment, signal_tag, source_of, spinner_frame, stored_snapshot, under_way,
    SidebarSessionStatus, Timestamp,
};
use crate::text::{lowered, trimmed};

verus! {

/// Each status is stored under its own name.
pub proof fn law_stored_names()
    ensures
        SessionStatus::Idle.storage_text() == "idle"@,
        SessionStatus::Loading.storage_text() == "loading"@,
        SessionStatus::NeedApprove.storage_text() == "need_approve"@,
        SessionStatus::Running.storage_text() == "running"@,
        SessionStatus::Done.storage_text() == "done"@,
        SessionStatus::Error.storage_text() == "error"@,
        SessionStatusSource::Structured.storage_text() == "structured"@,
        SessionStatusSource::Heuristic.storage_text() == "heuristic"@,
        SessionStatusConfidence::High.storage_text() == "high"@,
        SessionStatusConfidence::Low.storage_text() == "low"@,
{
}

/// A status that waits for an approval is read in three spellings, every other in one; any other
/// text is no status, and likewise for the source and the confidence.
pub proof fn law_read_names(value: Seq<char>)
    ensures
        SessionStatus::stored(value) == Some(SessionStatus::NeedApprove) <==> normalized(value)
            == "need_approve"@ || normalized(value) == "need-approve"@ || normalized(value)
            == "needapprove"@,
        SessionStatus::stored(value) matches Some(status) ==> !(status is NeedApprove)
            ==> normalized(value) == status.storage_text(),
        SessionStatusSource::stored(value) matches Some(source) ==> normalized(value)
            == source.storage_text(),
        SessionStatusConfidence::stored(value) matches Some(confidence) ==> normalized(value)
            == confidence.storage_text(),
{
    reveal_strlit("need_approve");
    reveal_strlit("need-approve");
    reveal_strlit("needapprove");
    reveal_strlit("idle");
    reveal_strlit("loading");
    assert("need_approve"@.len() == 12);
    assert("need-approve"@.len() == 12);
    assert("needapprove"@.len() == 11);
    assert("idle"@.len() == 4);
    assert("loading"@.len() == 7);
}

/// A session is under way while it loads, runs or waits for an approval, and not while it is idle,
/// done or failed.
pub proof fn law_under_way(status: SessionStatus)
    ensures
        status.transient() <==> !(status is Idle) && !(status is Done) && !(status is Error),
        under_way(status.storage_text()) == status.transient(),
{
    law_status_reads_back(status);
}

/// A status is shown as what it is; a text that is no status is shown as unknown.
pub proof fn law_shown_as_it_is(value: Seq<char>)
    ensures
        SidebarSessionStatus::shown(value) is Unknown <==> SessionStatus::stored(value) is None,
        SidebarSessionStatus::shown(value) is Idle <==> SessionStatus::stored(value) == Some(
            SessionStatus::Idle,
        ),
        SidebarSessionStatus::shown(value) is Loading <==> SessionStatus::stored(value) == Some(
            SessionStatus::Loading,
        ),
        SidebarSessionStatus::shown(value) is NeedApprove <==> SessionStatus::stored(value) == Some(
            SessionStatus::NeedApprove,
        ),
        SidebarSessionStatus::shown(value) is Running <==> SessionStatus::stored(value) == Some(
            SessionStatus::Running,
        ),
        SidebarSessionStatus::shown(value) is Done <==> SessionStatus::stored(value) == Some(
            SessionStatus::Done,
        ),
        SidebarSessionStatus::shown(value) is Error <==> SessionStatus::stored(value) == Some(
            SessionStatus::Error,
        ),
{
}

/// The badge of a status is its stored name in capitals; only loading and waiting have badges of
/// their own.
pub proof fn law_badges_name_the_status()
    ensures
        lowered(SidebarSessionStatus::Idle.badge_text()) == SessionStatus::Idle.storage_text(),
        lowered(SidebarSessionStatus::Running.badge_text()) == SessionStatus::Running.storage_text(),
        lowered(SidebarSessionStatus::Done.badge_text()) == SessionStatus::Done.storage_text(),
        lowered(SidebarSessionStatus::Error.badge_text()) == SessionStatus::Error.storage_text(),
        SidebarSessionStatus::Loading.badge_text() == "PREP"@,
        SidebarSessionStatus::NeedApprove.badge_text() == "APPROVAL"@,
        SidebarSessionStatus::Unknown.badge_text() == "UNKNOWN"@,
{
    reveal_strlit("IDLE");
    reveal_strlit("idle");
    reveal_strlit("RUNNING");
    reveal_strlit("running");
    reveal_strlit("DONE");
    reveal_strlit("done");
    reveal_strlit("ERROR");
    reveal_strlit("error");
    assert(lowered("IDLE"@) =~= "idle"@);
    assert(lowered("RUNNING"@) =~= "running"@);
    assert(lowered("DONE"@) =~= "done"@);
    assert(lowered("ERROR"@) =~= "error"@);
}

/// Only a failed session is shown as a danger, only one that waits for an approval as a warning, and
/// only a finished one as a success.
pub proof fn law_tones(status: SidebarSessionStatus)
    ensures
        status.line_tone() is Danger <==> status is Error,
        status.line_tone() is Warning <==> status is NeedApprove,
        status.line_tone() is Success <==> status is Done,
        status.line_tone() is Info <==> status is Loading || status is Running,
        status.line_tone() is Muted <==> status is Idle || status is Unknown,
{
}

/// The tag of a signal has two signs: the first tells the source, the second the confidence.
pub proof fn law_signal_tags(source: SessionStatusSource, confidence: SessionStatusConfidence)
    ensures
        signal_tag(source, confidence).len() == 2,
        signal_tag(source, confidence)[0] == if source is Structured {
            'S'
        } else {
            'H'
        },
        signal_tag(source, confidence)[1] == if confidence is High {
            '+'
        } else {
            '?'
        },
{
    reveal_strlit("S+");
    reveal_strlit("S?");
    reveal_strlit("H+");
    reveal_strlit("H?");
}

/// A source or a confidence that is stored is read as it was; any other text is read as a structured
/// source and as low confidence.
pub proof fn law_signals_read_back(
    value: Seq<char>,
    source: SessionStatusSource,
    confidence: SessionStatusConfidence,
)
    ensures
        source_of(source.storage_text()) == source,
        confidence_of(confidence.storage_text()) == confidence,
        SessionStatusSource::stored(value) is None ==> source_of(value) is Structured,
        SessionStatusConfidence::stored(value) is None ==> confidence_of(value) is Low,
{
    law_source_reads_back(source);
    law_confidence_reads_back(confidence);
}

/// The spinner turns every 120 milliseconds, through four signs.
pub proof fn law_spinner_turns(turn: nat, within: nat)
    requires
        within < 120,
    ensures
        spinner_frame(turn * 120 + within) == spinner_frame(turn * 120),
        spinner_frame(480 * turn) == '-',
        spinner_frame(480 * turn + 120) == '\\',
        spinner_frame(480 * turn + 240) == '|',
        spinner_frame(480 * turn + 360) == '/',
{
    assert((turn * 120 + within) / 120 == turn) by (nonlinear_arith)
        requires
            within < 120,
    ;
    assert((turn * 120) / 120 == turn) by (nonlinear_arith);
    assert((480 * turn) / 120 == 4 * turn) by (nonlinear_arith);
    assert((480 * turn + 120) / 120 == 4 * turn + 1) by (nonlinear_arith);
    assert((480 * turn + 240) / 120 == 4 * turn + 2) by (nonlinear_arith);
    assert((480 * turn + 360) / 120 == 4 * turn + 3) by (nonlinear_arith);
    assert((4 * turn) % 4 == 0) by (nonlinear_arith);
    assert((4 * turn + 1) % 4 == 1) by (nonlinear_arith);
    assert((4 * turn + 2) % 4 == 2) by (nonlinear_arith);
    assert((4 * turn + 3) % 4 == 3) by (nonlinear_arith);
}

/// Between two moments outside leap seconds lie the nanoseconds by which the later is later.
pub proof fn law_time_passes(now: Timestamp, before: Timestamp)
    requires
        now.nanos < 1_000_000_000,
        before.nanos < 1_000_000_000,
    ensures
        nanos_since(now, before) == (now.seconds * 1_000_000_000 + now.nanos) - (before.seconds
            * 1_000_000_000 + before.nanos),
        nanos_since(now, before) == -nanos_since(before, now),
        nanos_since(now, now) == 0,
{
    assert((now.seconds - before.seconds + 0) * 1_000_000_000 == now.seconds * 1_000_000_000
        - before.seconds * 1_000_000_000) by (nonlinear_arith);
    assert((before.seconds - now.seconds + 0) * 1_000_000_000 == before.seconds * 1_000_000_000
        - now.seconds * 1_000_000_000) by (nonlinear_arith);
}

/// A status goes out of date six hours after it was set, if the session is under way, and never
/// otherwise; one whose time cannot be read is out of date at once.
pub proof fn law_out_of_date_after_six_hours(
    status: SessionStatus,
    updated_at: Seq<char>,
    moment: Timestamp,
    now: Timestamp,
)
    requires
        now.nanos < 1_000_000_000,
        moment.nanos < 1_000_000_000,
    ensures
        !status.transient() ==> !out_of_date(status.storage_text(), updated_at, now),
        status.transient() && rfc3339_moment(updated_at) is None ==> out_of_date(
            status.storage_text(),
            updated_at,
            now,
        ),
        status.transient() && rfc3339_moment(updated_at) == Some(moment) ==> (out_of_date(
            status.storage_text(),
            updated_at,
            now,
        ) <==> (now.seconds * 1_000_000_000 + now.nanos) - (moment.seconds * 1_000_000_000
            + moment.nanos) >= 6 * 60 * 60 * 1_000_000_000),
{
    law_status_reads_back(status);
    law_time_passes(now, moment);
}

/// A status that is not out of date is kept under its stored name; one that is out of date, and a
/// text that is no status, becomes idle.
pub proof fn law_normal_status(
    status: SessionStatus,
    text: Seq<char>,
    updated_at: Seq<char>,
    now: Timestamp,
)
    ensures
        !out_of_date(status.storage_text(), updated_at, now) ==> normal_status(
            status.storage_text(),
            updated_at,
            now,
        ) == status.storage_text(),
        out_of_date(text, updated_at, now) ==> normal_status(text, updated_at, now) == "idle"@,
        SessionStatus::stored(text) is None ==> normal_status(text, updated_at, now) == "idle"@,
{
    law_status_reads_back(status);
}

/// What is read of a stored session is what was stored: its status, its source, its confidence and
/// its reason; a blank reason is none, and a text that is no status is idle.
pub proof fn law_snapshots_read_back(session: SessionView, snapshot: SnapshotView)
    requires
        session.status == snapshot.status.storage_text(),
        session.status_source == snapshot.source.storage_text(),
        session.status_confidence == snapshot.confidence.storage_text(),
    ensures
        stored_snapshot(session).status == snapshot.status,
        stored_snapshot(session).source == snapshot.source,
        stored_snapshot(session).confidence == snapshot.confidence,
        trimmed(session.status_reason).len() > 0 ==> stored_snapshot(session).reason == Some(
            session.status_reason,
        ),
        trimmed(session.status_reason).len() == 0 ==> stored_snapshot(session).reason is None,
{
    law_status_reads_back(snapshot.status);
    law_signals_read_back(Seq::empty(), snapshot.source, snapshot.confidence);
}

/// A guessed status is reset only where it was guessed with low confidence and the session is under
/// way; what an agent said, or was guessed with high confidence, stays.
pub proof fn law_only_guesses_are_reset(snapshot: SnapshotView)
    ensures
        snapshot.source is Structured ==> !guessed_under_way(snapshot),
        snapshot.confidence is High ==> !guessed_under_way(snapshot),
        snapshot.status is Idle || snapshot.status is Done || snapshot.status is Error
            ==> !guessed_under_way(snapshot),
        snapshot.source is Heuristic && snapshot.confidence is Low && (snapshot.status is Loading
            || snapshot.status is Running || snapshot.status is NeedApprove) ==> guessed_under_way(
            snapshot,
        ),
{
}

/// A pane runs Codex where its program does or its process is Codex, and nowhere else.
pub proof fn law_panes_of_codex(vars: Map<Seq<char>, Seq<char>>, process: Option<Seq<char>>)
    ensures
        process matches Some(name) ==> codex_process(name) ==> codex_pane(vars, process),
        vars.dom().contains("WEZTERM_PROG"@) && trimmed(vars["WEZTERM_PROG"@]).len() > 0
            && codex_command(trimmed(vars["WEZTERM_PROG"@])) ==> codex_pane(vars, process),
        !vars.dom().contains("WEZTERM_PROG"@) && process is None ==> !codex_pane(vars, process),
        (var_set(vars, "WEZTERM_PROG"@) ==> !codex_command(trimmed(vars["WEZTERM_PROG"@]))) && (
        process matches Some(name) ==> !codex_process(name)) ==> !codex_pane(vars, process),
{
}

} // verus!
