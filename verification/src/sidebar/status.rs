//! Session statuses in the sidebar: how they are shown, and when a running one is out of date.
use vstd::prelude::*;

use crate::agent_status::adapters::codex::{is_var_set, var_set};
use crate::agent_status::adapters::UserVars;
use crate::agent_status::codex_context::{
    codex_command, codex_process, is_codex_like_command, is_codex_process_name,
};
use crate::agent_status::events::{SessionStatus, SessionStatusConfidence, SessionStatusSource};
use crate::agent_status::manager::{SessionStatusSnapshot, SnapshotView};
use crate::sidebar::model::{
    find_session_in, session_in, SessionView, WorkspaceSidebarProject,
};
use crate::text::{is_blank, trim, trimmed};

verus! {

/// How prominent a line is.
#[derive(Debug, Clone, Copy, PartialEq, Eq, Structural)]
pub enum SidebarLineTone {
    Default,
    Muted,
    Info,
    Warning,
    Success,
    Danger,
}

/// A status as the sidebar shows it.
#[derive(Debug, Clone, Copy, PartialEq, Eq, Structural)]
pub enum SidebarSessionStatus {
    Idle,
    Loading,
    NeedApprove,
    Running,
    Done,
    Error,
    Unknown,
}

impl SidebarSessionStatus {
    /// The status that a stored text stands for.
    pub open spec fn shown(value: Seq<char>) -> SidebarSessionStatus {
        match SessionStatus::stored(value) {
            Some(SessionStatus::Idle) => SidebarSessionStatus::Idle,
            Some(SessionStatus::Loading) => SidebarSessionStatus::Loading,
            Some(SessionStatus::NeedApprove) => SidebarSessionStatus::NeedApprove,
            Some(SessionStatus::Running) => SidebarSessionStatus::Running,
            Some(SessionStatus::Done) => SidebarSessionStatus::Done,
            Some(SessionStatus::Error) => SidebarSessionStatus::Error,
            None => SidebarSessionStatus::Unknown,
        }
    }

    /// The word that stands for the status.
    pub open spec fn badge_text(self) -> Seq<char> {
        match self {
            SidebarSessionStatus::Idle => "IDLE"@,
            SidebarSessionStatus::Loading => "PREP"@,
            SidebarSessionStatus::NeedApprove => "APPROVAL"@,
            SidebarSessionStatus::Running => "RUNNING"@,
            SidebarSessionStatus::Done => "DONE"@,
            SidebarSessionStatus::Error => "ERROR"@,
            SidebarSessionStatus::Unknown => "UNKNOWN"@,
        }
    }

    /// The tone of a line with the status.
    pub open spec fn line_tone(self) -> SidebarLineTone {
        match self {
            SidebarSessionStatus::Idle => SidebarLineTone::Muted,
            SidebarSessionStatus::Loading => SidebarLineTone::Info,
            SidebarSessionStatus::Running => SidebarLineTone::Info,
            SidebarSessionStatus::NeedApprove => SidebarLineTone::Warning,
            SidebarSessionStatus::Done => SidebarLineTone::Success,
            SidebarSessionStatus::Error => SidebarLineTone::Danger,
            SidebarSessionStatus::Unknown => SidebarLineTone::Muted,
        }
    }

    /// The status that a stored text stands for.
    pub fn parse(value: &str) -> (r: SidebarSessionStatus)
        ensures
            r == SidebarSessionStatus::shown(value@),
    {
        match SessionStatus::parse_storage(value) {
            Some(SessionStatus::Idle) => SidebarSessionStatus::Idle,
            Some(SessionStatus::Loading) => SidebarSessionStatus::Loading,
            Some(SessionStatus::NeedApprove) => SidebarSessionStatus::NeedApprove,
            Some(SessionStatus::Running) => SidebarSessionStatus::Running,
            Some(SessionStatus::Done) => SidebarSessionStatus::Done,
            Some(SessionStatus::Error) => SidebarSessionStatus::Error,
            None => SidebarSessionStatus::Unknown,
        }
    }

    /// The word that stands for the status.
    pub fn badge(self) -> (r: &'static str)
        ensures
            r@ == self.badge_text(),
    {
        match self {
            SidebarSessionStatus::Idle => "IDLE",
            SidebarSessionStatus::Loading => "PREP",
            SidebarSessionStatus::NeedApprove => "APPROVAL",
            SidebarSessionStatus::Running => "RUNNING",
            SidebarSessionStatus::Done => "DONE",
            SidebarSessionStatus::Error => "ERROR",
            SidebarSessionStatus::Unknown => "UNKNOWN",
        }
    }

    /// The tone of a line with the status.
    pub fn tone(self) -> (r: SidebarLineTone)
        ensures
            r == self.line_tone(),
    {
        match self {
            SidebarSessionStatus::Idle => SidebarLineTone::Muted,
            SidebarSessionStatus::Loading => SidebarLineTone::Info,
            SidebarSessionStatus::Running => SidebarLineTone::Info,
            SidebarSessionStatus::NeedApprove => SidebarLineTone::Warning,
            SidebarSessionStatus::Done => SidebarLineTone::Success,
            SidebarSessionStatus::Error => SidebarLineTone::Danger,
            SidebarSessionStatus::Unknown => SidebarLineTone::Muted,
        }
    }
}

/// The source that a stored text stands for; structured where it stands for none.
pub open spec fn source_of(value: Seq<char>) -> SessionStatusSource {
    match SessionStatusSource::stored(value) {
        Some(source) => source,
        None => SessionStatusSource::Structured,
    }
}

/// The source that a stored text stands for; structured where it stands for none.
pub fn parse_session_status_source(value: &str) -> (r: SessionStatusSource)
    ensures
        r == source_of(value@),
{
    match SessionStatusSource::parse_storage(value) {
        Some(source) => source,
        None => SessionStatusSource::Structured,
    }
}

/// The confidence that a stored text stands for; low where it stands for none.
pub open spec fn confidence_of(value: Seq<char>) -> SessionStatusConfidence {
    match SessionStatusConfidence::stored(value) {
        Some(confidence) => confidence,
        None => SessionStatusConfidence::Low,
    }
}

/// The confidence that a stored text stands for; low where it stands for none.
pub fn parse_session_status_confidence(value: &str) -> (r: SessionStatusConfidence)
    ensures
        r == confidence_of(value@),
{
    match SessionStatusConfidence::parse_storage(value) {
        Some(confidence) => confidence,
        None => SessionStatusConfidence::Low,
    }
}

/// The mark for a source and a confidence.
pub open spec fn signal_tag(
    source: SessionStatusSource,
    confidence: SessionStatusConfidence,
) -> Seq<char> {
    match (source, confidence) {
        (SessionStatusSource::Structured, SessionStatusConfidence::High) => "S+"@,
        (SessionStatusSource::Structured, SessionStatusConfidence::Low) => "S?"@,
        (SessionStatusSource::Heuristic, SessionStatusConfidence::High) => "H+"@,
        (SessionStatusSource::Heuristic, SessionStatusConfidence::Low) => "H?"@,
    }
}

/// The mark for a source and a confidence.
pub fn sidebar_status_signal_tag(
    source: SessionStatusSource,
    confidence: SessionStatusConfidence,
) -> (r: &'static str)
    ensures
        r@ == signal_tag(source, confidence),
{
    match (source, confidence) {
        (SessionStatusSource::Structured, SessionStatusConfidence::High) => "S+",
        (SessionStatusSource::Structured, SessionStatusConfidence::Low) => "S?",
        (SessionStatusSource::Heuristic, SessionStatusConfidence::High) => "H+",
        (SessionStatusSource::Heuristic, SessionStatusConfidence::Low) => "H?",
    }
}

/// The word for a source.
pub fn sidebar_status_source_label(source: SessionStatusSource) -> (r: &'static str)
    ensures
        r@ == source.storage_text(),
{
    match source {
        SessionStatusSource::Structured => "structured",
        SessionStatusSource::Heuristic => "heuristic",
    }
}

/// Whether a line with the status shows a spinner: while the session loads.
pub fn sidebar_status_is_animating(status: SidebarSessionStatus) -> (r: bool)
    ensures
        r == (status is Loading),
{
    matches!(status, SidebarSessionStatus::Loading)
}

/// How long the spinner shows one frame, in milliseconds.
pub const SPINNER_INTERVAL_MS: u128 = 120;

/// The frame of the spinner after some milliseconds.
pub open spec fn spinner_frame(elapsed_ms: nat) -> char {
    let frame = (elapsed_ms / (SPINNER_INTERVAL_MS as nat)) % 4;
    if frame == 0 {
        '-'
    } else if frame == 1 {
        '\\'
    } else if frame == 2 {
        '|'
    } else {
        '/'
    }
}

/// The frame of the spinner after some milliseconds.
pub fn sidebar_status_spinner_frame(elapsed_ms: u128) -> (r: char)
    ensures
        r == spinner_frame(elapsed_ms as nat),
{
    let frame: u128 = (elapsed_ms / SPINNER_INTERVAL_MS) % 4;
    if frame == 0 {
        '-'
    } else if frame == 1 {
        '\\'
    } else if frame == 2 {
        '|'
    } else {
        '/'
    }
}

/// The spinner comes round after four frames.
pub proof fn law_spinner_comes_round(elapsed_ms: nat)
    ensures
        spinner_frame(elapsed_ms + 480) == spinner_frame(elapsed_ms),
{
}

// ---------------------------------------------------------------------------
// Time
// ---------------------------------------------------------------------------

/// A moment: seconds since the epoch, and nanoseconds within the second. During a leap second the
/// nanoseconds go on beyond a full second.
#[derive(Debug, Clone, Copy, PartialEq, Eq, Structural)]
pub struct Timestamp {
    pub seconds: i64,
    pub nanos: u32,
}

/// The moment that `chrono::DateTime::parse_from_rfc3339` reads from a text; `None` where it
/// reports an error.
pub uninterp spec fn rfc3339_moment(text: Seq<char>) -> Option<Timestamp>;

/// `chrono::DateTime::parse_from_rfc3339`, and the moment that it reads as UTC seconds and
/// nanoseconds. Which texts it reads is a function of the text and is not stated further.
#[verifier::external_body]
fn parse_rfc3339(text: &str) -> (r: Option<Timestamp>)
    ensures
        r == rfc3339_moment(text@),
{
    let parsed = chrono::DateTime::parse_from_rfc3339(text).ok()?;
    let moment = parsed.with_timezone(&chrono::Utc);
    Some(Timestamp { seconds: moment.timestamp(), nanos: moment.timestamp_subsec_nanos() })
}

/// `chrono::Utc::now`. Nothing is stated of the moment: it is the machine's clock.
#[verifier::external_body]
pub(crate) fn current_moment() -> (r: Timestamp) {
    let now = chrono::Utc::now();
    Timestamp { seconds: now.timestamp(), nanos: now.timestamp_subsec_nanos() }
}

/// How much longer the time between two moments is for a leap second that lies between their times
/// of day.
pub open spec fn leap_seconds(now: Timestamp, before: Timestamp) -> int {
    let late = now.seconds as int % 86400;
    let early = before.seconds as int % 86400;
    if late > early && before.nanos >= 1_000_000_000 {
        1
    } else if late < early && now.nanos >= 1_000_000_000 {
        -1
    } else {
        0
    }
}

/// The nanoseconds from one moment to another.
pub open spec fn nanos_since(now: Timestamp, before: Timestamp) -> int {
    (now.seconds - before.seconds + leap_seconds(now, before)) * 1_000_000_000 + (now.nanos
        - before.nanos)
}

/// After how many seconds a status of a task under way is out of date.
pub const STALE_AFTER_SECONDS: i128 = 21600;

fn second_of_day(seconds: i64) -> (r: u128)
    ensures
        r == seconds as int % 86400,
{
    let shifted: u128 = (seconds as i128 + 9223372036854806400) as u128;
    shifted % 86400
}

fn elapsed_nanos(now: Timestamp, before: Timestamp) -> (r: i128)
    ensures
        r == nanos_since(now, before),
{
    let late: u128 = second_of_day(now.seconds);
    let early: u128 = second_of_day(before.seconds);
    let leap: i128 = if late > early && before.nanos >= 1_000_000_000 {
        1
    } else if late < early && now.nanos >= 1_000_000_000 {
        -1
    } else {
        0
    };
    (now.seconds as i128 - before.seconds as i128 + leap) * 1_000_000_000 + (now.nanos as i128
        - before.nanos as i128)
}

/// A stored status that says that a task is under way.
pub open spec fn under_way(status: Seq<char>) -> bool {
    SessionStatus::stored(status) matches Some(known) && known.transient()
}

/// A status of a task under way is out of date: it was set long ago, or at no known moment.
pub open spec fn out_of_date(status: Seq<char>, updated_at: Seq<char>, now: Timestamp) -> bool {
    under_way(status) && match rfc3339_moment(updated_at) {
        Some(moment) => nanos_since(now, moment) >= STALE_AFTER_SECONDS * 1_000_000_000,
        None => true,
    }
}

/// Whether a status that was set at a given moment is out of date.
pub fn is_stale_since(status: &str, set_at: Option<Timestamp>, now: Timestamp) -> (r: bool)
    ensures
        r == (under_way(status@) && match set_at {
            Some(moment) => nanos_since(now, moment) >= STALE_AFTER_SECONDS * 1_000_000_000,
            None => true,
        }),
{
    match SessionStatus::parse_storage(status) {
        Some(known) => {
            if !known.is_transient() {
                return false;
            }
        },
        None => {
            return false;
        },
    }
    match set_at {
        Some(moment) => elapsed_nanos(now, moment) >= STALE_AFTER_SECONDS * 1_000_000_000,
        None => true,
    }
}

/// Whether a status of a task under way is out of date.
pub fn is_stale_transient_session_status(status: &str, updated_at: &str, now: Timestamp) -> (r: bool)
    ensures
        r == out_of_date(status@, updated_at@, now),
{
    is_stale_since(status, parse_rfc3339(updated_at), now)
}

/// The stored form of a status: idle where it is out of date or stands for nothing.
pub open spec fn normal_status(status: Seq<char>, updated_at: Seq<char>, now: Timestamp) -> Seq<
    char,
> {
    if out_of_date(status, updated_at, now) {
        SessionStatus::Idle.storage_text()
    } else {
        match SessionStatus::stored(status) {
            Some(known) => known.storage_text(),
            None => SessionStatus::Idle.storage_text(),
        }
    }
}

/// The stored form of a status: idle where it is out of date or stands for nothing.
pub fn normalize_transient_session_status(status: &str, updated_at: &str, now: Timestamp) -> (r:
    String)
    ensures
        r@ == normal_status(status@, updated_at@, now),
{
    if is_stale_transient_session_status(status, updated_at, now) {
        return SessionStatus::Idle.as_storage_str().to_owned();
    }
    match SessionStatus::parse_storage(status) {
        Some(known) => known.as_storage_str().to_owned(),
        None => SessionStatus::Idle.as_storage_str().to_owned(),
    }
}

/// Normalising a status gives one that is not out of date, and normalising it again at the same
/// moment changes nothing.
pub proof fn law_normal_status_is_stable(status: Seq<char>, updated_at: Seq<char>, now: Timestamp)
    ensures
        normal_status(normal_status(status, updated_at, now), updated_at, now) == normal_status(
            status,
            updated_at,
            now,
        ),
        !out_of_date(normal_status(status, updated_at, now), updated_at, now),
{
    crate::agent_status::events::law_status_reads_back(SessionStatus::Idle);
    match SessionStatus::stored(status) {
        Some(known) => {
            crate::agent_status::events::law_status_reads_back(known);
        },
        None => {},
    }
}

// ---------------------------------------------------------------------------
// Snapshots
// ---------------------------------------------------------------------------

/// The snapshot that the stored fields of a session hold.
pub open spec fn stored_snapshot(session: SessionView) -> SnapshotView {
    SnapshotView {
        status: match SessionStatus::stored(session.status) {
            Some(known) => known,
            None => SessionStatus::Idle,
        },
        source: source_of(session.status_source),
        confidence: confidence_of(session.status_confidence),
        reason: if trimmed(session.status_reason).len() == 0 {
            None
        } else {
            Some(session.status_reason)
        },
    }
}

/// The snapshot that the stored fields of a session hold, where the session is there.
pub fn sidebar_session_status_snapshot(
    projects: &Vec<WorkspaceSidebarProject>,
    project_id: &str,
    session_id: &str,
) -> (r: Option<SessionStatusSnapshot>)
    ensures
        r.deep_view() == match session_in(projects.deep_view(), project_id@, session_id@) {
            Some(session) => Some(stored_snapshot(session)),
            None => None,
        },
{
    match find_session_in(projects, project_id, session_id) {
        Some(session) => {
            let status = match SessionStatus::parse_storage(session.status.as_str()) {
                Some(known) => known,
                None => SessionStatus::Idle,
            };
            let source = parse_session_status_source(session.status_source.as_str());
            let confidence = parse_session_status_confidence(session.status_confidence.as_str());
            let reason = if is_blank(session.status_reason.as_str()) {
                None
            } else {
                Some(session.status_reason.clone())
            };
            Some(SessionStatusSnapshot::new(status, source, confidence, reason))
        },
        None => None,
    }
}

/// The pane runs Codex, by the program its shell names or by its foreground process.
pub open spec fn codex_pane(
    vars: Map<Seq<char>, Seq<char>>,
    process: Option<Seq<char>>,
) -> bool {
    ||| var_set(vars, "WEZTERM_PROG"@) && codex_command(trimmed(vars["WEZTERM_PROG"@]))
    ||| process matches Some(name) && codex_process(name)
}

/// A guess that a task is under way.
pub open spec fn guessed_under_way(snapshot: SnapshotView) -> bool {
    snapshot.status.transient() && snapshot.source is Heuristic && snapshot.confidence is Low
}

/// Whether the status of a session that was just bound to a pane has to become idle: it is a guess
/// that a task is under way, and the pane does not run Codex.
pub fn resets_transient_status(
    vars: &UserVars,
    foreground_process_name: &Option<String>,
    snapshot: &SessionStatusSnapshot,
) -> (r: bool)
    ensures
        r == (!codex_pane(vars@, foreground_process_name.deep_view()) && guessed_under_way(
            snapshot.deep_view(),
        )),
{
    let by_command = is_var_set(vars, "WEZTERM_PROG") && match vars.get("WEZTERM_PROG") {
        Some(program) => is_codex_like_command(trim(program).as_str()),
        None => false,
    };
    let by_process = match foreground_process_name {
        Some(name) => is_codex_process_name(name.as_str()),
        None => false,
    };
    if by_command || by_process {
        return false;
    }
    snapshot.status.is_transient() && matches!(snapshot.source, SessionStatusSource::Heuristic)
        && matches!(snapshot.confidence, SessionStatusConfidence::Low)
}

/// The status that such a session gets.
pub fn reset_snapshot() -> (r: SessionStatusSnapshot)
    ensures
        r.deep_view() == (SnapshotView {
            status: SessionStatus::Idle,
            source: SessionStatusSource::Heuristic,
            confidence: SessionStatusConfidence::Low,
            reason: None,
        }),
{
    SessionStatusSnapshot::new(
        SessionStatus::Idle,
        SessionStatusSource::Heuristic,
        SessionStatusConfidence::Low,
        None,
    )
}

} // verus!
