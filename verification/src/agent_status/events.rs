//! Session statuses, where a status came from, and the events that change it.
use vstd::prelude::*;

use crate::text::{
    copy_optional_text, law_trimming_undoes_padding, lowered, lowered_char, same_text,
    to_ascii_lowercase, trim, trimmed, trimmed_end, trimmed_start, whitespace,
};

verus! {

/// The status of a session.
#[derive(Debug, Clone, Copy, PartialEq, Eq, Hash, Structural)]
pub enum SessionStatus {
    Idle,
    Loading,
    NeedApprove,
    Running,
    Done,
    Error,
}

/// Stored values are read without regard to surrounding white space and ASCII letter case.
pub open spec fn normalized(value: Seq<char>) -> Seq<char> {
    lowered(trimmed(value))
}

/// The normal form in which a stored value is compared.
pub fn normalize(value: &str) -> (r: String)
    ensures
        r@ == normalized(value@),
{
    to_ascii_lowercase(trim(value).as_str())
}

impl SessionStatus {
    /// The text that stands for this status in storage.
    pub open spec fn storage_text(self) -> Seq<char> {
        match self {
            SessionStatus::Idle => "idle"@,
            SessionStatus::Loading => "loading"@,
            SessionStatus::NeedApprove => "need_approve"@,
            SessionStatus::Running => "running"@,
            SessionStatus::Done => "done"@,
            SessionStatus::Error => "error"@,
        }
    }

    /// The status that a stored text stands for.
    pub open spec fn stored(value: Seq<char>) -> Option<SessionStatus> {
        let name = normalized(value);
        if name == "idle"@ {
            Some(SessionStatus::Idle)
        } else if name == "loading"@ {
            Some(SessionStatus::Loading)
        } else if name == "need_approve"@ || name == "need-approve"@ || name == "needapprove"@ {
            Some(SessionStatus::NeedApprove)
        } else if name == "running"@ {
            Some(SessionStatus::Running)
        } else if name == "done"@ {
            Some(SessionStatus::Done)
        } else if name == "error"@ {
            Some(SessionStatus::Error)
        } else {
            None
        }
    }

    /// A task is under way: loading, running or waiting for an approval.
    pub open spec fn transient(self) -> bool {
        self is Loading || self is NeedApprove || self is Running
    }

    /// The text that stands for this status in storage.
    pub fn as_storage_str(self) -> (r: &'static str)
        ensures
            r@ == self.storage_text(),
    {
        match self {
            SessionStatus::Idle => "idle",
            SessionStatus::Loading => "loading",
            SessionStatus::NeedApprove => "need_approve",
            SessionStatus::Running => "running",
            SessionStatus::Done => "done",
            SessionStatus::Error => "error",
        }
    }

    /// The status that a stored text stands for, if it stands for one.
    pub fn parse_storage(value: &str) -> (r: Option<SessionStatus>)
        ensures
            r == SessionStatus::stored(value@),
    {
        let name = normalize(value);
        let name = name.as_str();
        if same_text(name, "idle") {
            Some(SessionStatus::Idle)
        } else if same_text(name, "loading") {
            Some(SessionStatus::Loading)
        } else if same_text(name, "need_approve") || same_text(name, "need-approve") || same_text(
            name,
            "needapprove",
        ) {
            Some(SessionStatus::NeedApprove)
        } else if same_text(name, "running") {
            Some(SessionStatus::Running)
        } else if same_text(name, "done") {
            Some(SessionStatus::Done)
        } else if same_text(name, "error") {
            Some(SessionStatus::Error)
        } else {
            None
        }
    }

    /// Whether a task is under way.
    pub fn is_transient(self) -> (r: bool)
        ensures
            r == self.transient(),
    {
        matches!(self, SessionStatus::Loading | SessionStatus::NeedApprove | SessionStatus::Running)
    }
}

/// How a status was learned: from a structured message, or by interpreting terminal signals.
#[derive(Debug, Clone, Copy, PartialEq, Eq, Hash, Structural)]
pub enum SessionStatusSource {
    Structured,
    Heuristic,
}

impl SessionStatusSource {
    /// The text that stands for this source in storage.
    pub open spec fn storage_text(self) -> Seq<char> {
        match self {
            SessionStatusSource::Structured => "structured"@,
            SessionStatusSource::Heuristic => "heuristic"@,
        }
    }

    /// The source that a stored text stands for.
    pub open spec fn stored(value: Seq<char>) -> Option<SessionStatusSource> {
        let name = normalized(value);
        if name == "structured"@ {
            Some(SessionStatusSource::Structured)
        } else if name == "heuristic"@ {
            Some(SessionStatusSource::Heuristic)
        } else {
            None
        }
    }

    /// The text that stands for this source in storage.
    pub fn as_storage_str(self) -> (r: &'static str)
        ensures
            r@ == self.storage_text(),
    {
        match self {
            SessionStatusSource::Structured => "structured",
            SessionStatusSource::Heuristic => "heuristic",
        }
    }

    /// The source that a stored text stands for, if it stands for one.
    pub fn parse_storage(value: &str) -> (r: Option<SessionStatusSource>)
        ensures
            r == SessionStatusSource::stored(value@),
    {
        let name = normalize(value);
        if same_text(name.as_str(), "structured") {
            Some(SessionStatusSource::Structured)
        } else if same_text(name.as_str(), "heuristic") {
            Some(SessionStatusSource::Heuristic)
        } else {
            None
        }
    }
}

/// How far a status can be trusted.
#[derive(Debug, Clone, Copy, PartialEq, Eq, Hash, Structural)]
pub enum SessionStatusConfidence {
    High,
    Low,
}

impl SessionStatusConfidence {
    /// The text that stands for this confidence in storage.
    pub open spec fn storage_text(self) -> Seq<char> {
        match self {
            SessionStatusConfidence::High => "high"@,
            SessionStatusConfidence::Low => "low"@,
        }
    }

    /// The confidence that a stored text stands for.
    pub open spec fn stored(value: Seq<char>) -> Option<SessionStatusConfidence> {
        let name = normalized(value);
        if name == "high"@ {
            Some(SessionStatusConfidence::High)
        } else if name == "low"@ {
            Some(SessionStatusConfidence::Low)
        } else {
            None
        }
    }

    /// The text that stands for this confidence in storage.
    pub fn as_storage_str(self) -> (r: &'static str)
        ensures
            r@ == self.storage_text(),
    {
        match self {
            SessionStatusConfidence::High => "high",
            SessionStatusConfidence::Low => "low",
        }
    }

    /// The confidence that a stored text stands for, if it stands for one.
    pub fn parse_storage(value: &str) -> (r: Option<SessionStatusConfidence>)
        ensures
            r == SessionStatusConfidence::stored(value@),
    {
        let name = normalize(value);
        if same_text(name.as_str(), "high") {
            Some(SessionStatusConfidence::High)
        } else if same_text(name.as_str(), "low") {
            Some(SessionStatusConfidence::Low)
        } else {
            None
        }
    }
}

/// What an agent did, as far as session statuses are concerned.
#[derive(Debug, PartialEq, Eq)]
pub enum AgentEvent {
    TaskStarted { provider: String },
    TaskOutput { provider: String },
    ApprovalRequired { provider: String, detail: Option<String> },
    ApprovalResolved { provider: String, approved: bool },
    TaskCompleted { provider: String },
    TaskFailed { provider: String, reason: Option<String> },
}

/// An [`AgentEvent`] with its texts as character sequences.
pub enum AgentEventView {
    TaskStarted { provider: Seq<char> },
    TaskOutput { provider: Seq<char> },
    ApprovalRequired { provider: Seq<char>, detail: Option<Seq<char>> },
    ApprovalResolved { provider: Seq<char>, approved: bool },
    TaskCompleted { provider: Seq<char> },
    TaskFailed { provider: Seq<char>, reason: Option<Seq<char>> },
}

impl DeepView for AgentEvent {
    type V = AgentEventView;

    open spec fn deep_view(&self) -> AgentEventView {
        match self {
            AgentEvent::TaskStarted { provider } => AgentEventView::TaskStarted {
                provider: provider@,
            },
            AgentEvent::TaskOutput { provider } => AgentEventView::TaskOutput {
                provider: provider@,
            },
            AgentEvent::ApprovalRequired { provider, detail } => AgentEventView::ApprovalRequired {
                provider: provider@,
                detail: detail.deep_view(),
            },
            AgentEvent::ApprovalResolved { provider, approved } => {
                AgentEventView::ApprovalResolved { provider: provider@, approved: *approved }
            },
            AgentEvent::TaskCompleted { provider } => AgentEventView::TaskCompleted {
                provider: provider@,
            },
            AgentEvent::TaskFailed { provider, reason } => AgentEventView::TaskFailed {
                provider: provider@,
                reason: reason.deep_view(),
            },
        }
    }
}

impl Clone for AgentEvent {
    fn clone(&self) -> (r: AgentEvent)
        ensures
            r == *self,
    {
        match self {
            AgentEvent::TaskStarted { provider } => AgentEvent::TaskStarted {
                provider: provider.clone(),
            },
            AgentEvent::TaskOutput { provider } => AgentEvent::TaskOutput {
                provider: provider.clone(),
            },
            AgentEvent::ApprovalRequired { provider, detail } => AgentEvent::ApprovalRequired {
                provider: provider.clone(),
                detail: copy_optional_text(detail),
            },
            AgentEvent::ApprovalResolved { provider, approved } => AgentEvent::ApprovalResolved {
                provider: provider.clone(),
                approved: *approved,
            },
            AgentEvent::TaskCompleted { provider } => AgentEvent::TaskCompleted {
                provider: provider.clone(),
            },
            AgentEvent::TaskFailed { provider, reason } => AgentEvent::TaskFailed {
                provider: provider.clone(),
                reason: copy_optional_text(reason),
            },
        }
    }
}

/// Text of ASCII characters without upper-case letters and without white space at its ends is its
/// own normal form.
proof fn lemma_normalized_fixed(s: Seq<char>)
    requires
        s.len() > 0,
        !whitespace(s[0]),
        !whitespace(s.last()),
        forall|i: int| 0 <= i < s.len() ==> lowered_char(#[trigger] s[i]) == s[i],
    ensures
        normalized(s) == s,
{
    assert(trimmed_start(s) == s);
    assert(trimmed_end(s) == s);
    assert(lowered(s) =~= s);
}

/// A text written in any ASCII letter case and with white space around it has the normal form of the
/// text itself.
proof fn lemma_normalized_variant(
    before: Seq<char>,
    written: Seq<char>,
    after: Seq<char>,
    s: Seq<char>,
)
    requires
        padding(before),
        padding(after),
        lowered(written) == s,
        s.len() > 0,
        !whitespace(s[0]),
        !whitespace(s.last()),
    ensures
        normalized(before + written + after) == s,
{
    assert(s[0] == lowered_char(written[0]));
    assert(s.last() == lowered_char(written.last()));
    law_trimming_undoes_padding(before, written, after);
}

/// The text is nothing but white space.
pub open spec fn padding(s: Seq<char>) -> bool {
    forall|i: int| 0 <= i < s.len() ==> whitespace(#[trigger] s[i])
}

/// Reading back a stored status gives the status that was stored, in whatever ASCII letter case it
/// is written and with whatever white space around it.
pub proof fn law_status_reads_back_in_any_form(
    status: SessionStatus,
    before: Seq<char>,
    written: Seq<char>,
    after: Seq<char>,
)
    requires
        padding(before),
        padding(after),
        lowered(written) == status.storage_text(),
    ensures
        SessionStatus::stored(before + written + after) == Some(status),
{
    reveal_strlit("idle");
    reveal_strlit("loading");
    reveal_strlit("need_approve");
    reveal_strlit("need-approve");
    reveal_strlit("needapprove");
    reveal_strlit("running");
    reveal_strlit("done");
    reveal_strlit("error");
    let s = status.storage_text();
    lemma_normalized_variant(before, written, after, s);
    lemma_normalized_fixed(s);
    law_status_reads_back(status);
}

/// Reading back a stored source gives the source that was stored, in whatever ASCII letter case it
/// is written and with whatever white space around it.
pub proof fn law_source_reads_back_in_any_form(
    source: SessionStatusSource,
    before: Seq<char>,
    written: Seq<char>,
    after: Seq<char>,
)
    requires
        padding(before),
        padding(after),
        lowered(written) == source.storage_text(),
    ensures
        SessionStatusSource::stored(before + written + after) == Some(source),
{
    reveal_strlit("structured");
    reveal_strlit("heuristic");
    lemma_normalized_variant(before, written, after, source.storage_text());
    lemma_normalized_fixed(source.storage_text());
    law_source_reads_back(source);
}

/// Reading back a stored confidence gives the confidence that was stored, in whatever ASCII letter
/// case it is written and with whatever white space around it.
pub proof fn law_confidence_reads_back_in_any_form(
    confidence: SessionStatusConfidence,
    before: Seq<char>,
    written: Seq<char>,
    after: Seq<char>,
)
    requires
        padding(before),
        padding(after),
        lowered(written) == confidence.storage_text(),
    ensures
        SessionStatusConfidence::stored(before + written + after) == Some(confidence),
{
    reveal_strlit("high");
    reveal_strlit("low");
    lemma_normalized_variant(before, written, after, confidence.storage_text());
    lemma_normalized_fixed(confidence.storage_text());
    law_confidence_reads_back(confidence);
}

/// Reading back a stored status gives the status that was stored.
pub proof fn law_status_reads_back(status: SessionStatus)
    ensures
        SessionStatus::stored(status.storage_text()) == Some(status),
{
    reveal_strlit("idle");
    reveal_strlit("loading");
    reveal_strlit("need_approve");
    reveal_strlit("need-approve");
    reveal_strlit("needapprove");
    reveal_strlit("running");
    reveal_strlit("done");
    reveal_strlit("error");
    let s = status.storage_text();
    lemma_normalized_fixed(s);
    assert("idle"@ != "done"@) by {
        assert("idle"@[0] != "done"@[0]);
    }
    assert("error"@[0] != "idle"@[0]);
    assert("running"@[0] != "loading"@[0]);
}

/// Reading back a stored source gives the source that was stored.
pub proof fn law_source_reads_back(source: SessionStatusSource)
    ensures
        SessionStatusSource::stored(source.storage_text()) == Some(source),
{
    reveal_strlit("structured");
    reveal_strlit("heuristic");
    lemma_normalized_fixed(source.storage_text());
}

/// Reading back a stored confidence gives the confidence that was stored.
pub proof fn law_confidence_reads_back(confidence: SessionStatusConfidence)
    ensures
        SessionStatusConfidence::stored(confidence.storage_text()) == Some(confidence),
{
    reveal_strlit("high");
    reveal_strlit("low");
    lemma_normalized_fixed(confidence.storage_text());
}

} // verus!
