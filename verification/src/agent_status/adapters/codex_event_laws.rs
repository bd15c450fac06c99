//! What the Codex adapter reports for each message of the app server.
use vstd::prelude::*;

use crate::agent_status::adapters::codex::{
    field_detail, notified, output_step, shown_detail, PaneView,
};
use crate::agent_status::adapters::codex_output::{message_in, NotificationView};
use crate::agent_status::adapters::SampleView;
use crate::agent_status::events::AgentEventView;
use crate::json::{member_of, texts_in, JsonView};
use crate::text::{
    first_chars, joined_with, law_trimmed_is_stable, law_trimming_undoes_padding,
    lemma_trimmed_end_shape, lemma_trimmed_start_shape, trimmed, whitespace,
};

verus! {

/// The texts differ.
pub proof fn lemma_methods_differ()
    ensures
        "turn/started"@ != "item/started"@,
        "turn/started"@ != "item/completed"@,
        "turn/started"@ != "thread/status/changed"@,
        "turn/started"@ != "item/autoApprovalReview/started"@,
        "turn/started"@ != "item/autoApprovalReview/completed"@,
        "turn/started"@ != "turn/completed"@,
        "turn/started"@ != "error"@,
        "turn/started"@ != "serverRequest/resolved"@,
        "item/started"@ != "item/completed"@,
        "item/started"@ != "thread/status/changed"@,
        "item/started"@ != "item/autoApprovalReview/started"@,
        "item/started"@ != "item/autoApprovalReview/completed"@,
        "item/started"@ != "turn/completed"@,
        "item/started"@ != "error"@,
        "item/started"@ != "serverRequest/resolved"@,
        "item/completed"@ != "thread/status/changed"@,
        "item/completed"@ != "item/autoApprovalReview/started"@,
        "item/completed"@ != "item/autoApprovalReview/completed"@,
        "item/completed"@ != "turn/completed"@,
        "item/completed"@ != "error"@,
        "item/completed"@ != "serverRequest/resolved"@,
        "thread/status/changed"@ != "item/autoApprovalReview/started"@,
        "thread/status/changed"@ != "item/autoApprovalReview/completed"@,
        "thread/status/changed"@ != "turn/completed"@,
        "thread/status/changed"@ != "error"@,
        "thread/status/changed"@ != "serverRequest/resolved"@,
        "item/autoApprovalReview/started"@ != "item/autoApprovalReview/completed"@,
        "item/autoApprovalReview/started"@ != "turn/completed"@,
        "item/autoApprovalReview/started"@ != "error"@,
        "item/autoApprovalReview/started"@ != "serverRequest/resolved"@,
        "item/autoApprovalReview/completed"@ != "turn/completed"@,
        "item/autoApprovalReview/completed"@ != "error"@,
        "item/autoApprovalReview/completed"@ != "serverRequest/resolved"@,
        "turn/completed"@ != "error"@,
        "turn/completed"@ != "serverRequest/resolved"@,
        "error"@ != "serverRequest/resolved"@,
{
    reveal_strlit("turn/started");
    reveal_strlit("item/started");
    reveal_strlit("item/completed");
    reveal_strlit("thread/status/changed");
    reveal_strlit("item/autoApprovalReview/started");
    reveal_strlit("item/autoApprovalReview/completed");
    reveal_strlit("turn/completed");
    reveal_strlit("error");
    reveal_strlit("serverRequest/resolved");
    assert("turn/started"@.len() == 12);
    assert("item/started"@.len() == 12);
    assert("item/completed"@.len() == 14);
    assert("thread/status/changed"@.len() == 21);
    assert("item/autoApprovalReview/started"@.len() == 31);
    assert("item/autoApprovalReview/completed"@.len() == 33);
    assert("turn/completed"@.len() == 14);
    assert("error"@.len() == 5);
    assert("serverRequest/resolved"@.len() == 22);
    assert("turn/started"@[0] != "item/started"@[0]);
    assert("item/completed"@[0] != "turn/completed"@[0]);
}

/// The texts differ.
pub proof fn lemma_requests_differ()
    ensures
        "item/commandExecution/requestApproval"@ != "item/fileChange/requestApproval"@,
        "item/commandExecution/requestApproval"@ != "item/permissions/requestApproval"@,
        "item/commandExecution/requestApproval"@ != "execCommandApproval"@,
        "item/commandExecution/requestApproval"@ != "applyPatchApproval"@,
        "item/fileChange/requestApproval"@ != "item/permissions/requestApproval"@,
        "item/fileChange/requestApproval"@ != "execCommandApproval"@,
        "item/fileChange/requestApproval"@ != "applyPatchApproval"@,
        "item/permissions/requestApproval"@ != "execCommandApproval"@,
        "item/permissions/requestApproval"@ != "applyPatchApproval"@,
        "execCommandApproval"@ != "applyPatchApproval"@,
{
    reveal_strlit("item/commandExecution/requestApproval");
    reveal_strlit("item/fileChange/requestApproval");
    reveal_strlit("item/permissions/requestApproval");
    reveal_strlit("execCommandApproval");
    reveal_strlit("applyPatchApproval");
    assert("item/commandExecution/requestApproval"@.len() == 37);
    assert("item/fileChange/requestApproval"@.len() == 31);
    assert("item/permissions/requestApproval"@.len() == 32);
    assert("execCommandApproval"@.len() == 19);
    assert("applyPatchApproval"@.len() == 18);
}

/// The texts differ.
pub proof fn lemma_kinds_differ()
    ensures
        "active"@ != "idle"@,
        "active"@ != "systemError"@,
        "idle"@ != "systemError"@,
{
    reveal_strlit("active");
    reveal_strlit("idle");
    reveal_strlit("systemError");
    assert("active"@.len() == 6);
    assert("idle"@.len() == 4);
    assert("systemError"@.len() == 11);
}

/// The texts differ.
pub proof fn lemma_turns_differ()
    ensures
        "completed"@ != "failed"@,
        "completed"@ != "interrupted"@,
        "failed"@ != "interrupted"@,
{
    reveal_strlit("completed");
    reveal_strlit("failed");
    reveal_strlit("interrupted");
    assert("completed"@.len() == 9);
    assert("failed"@.len() == 6);
    assert("interrupted"@.len() == 11);
}

/// A message in the output that is not the one before it again.
pub open spec fn brings(pane: PaneView, sample: SampleView, message: NotificationView) -> bool {
    &&& message_in(sample.tail_text) == Some(message)
    &&& pane.last_app_server_signature != Some(message.signature)
}

/// What is reported of an approval that was awaited, before anything else.
pub open spec fn settled(pane: PaneView, approved: bool) -> Seq<AgentEventView> {
    if pane.approval_prompt_visible {
        seq![AgentEventView::ApprovalResolved { provider: "codex"@, approved }]
    } else {
        Seq::empty()
    }
}

/// A thread that falls idle ends the turn under way: the last thing reported is that the task
/// completed, and no output is reported. Without a turn nothing completes. No approval is awaited
/// any more, and one that was counts as granted.
pub proof fn law_idle_thread_completes(
    pane: PaneView,
    sample: SampleView,
    message: NotificationView,
    status: JsonView,
)
    requires
        brings(pane, sample, message),
        !message.is_request,
        message.method == "thread/status/changed"@,
        member_of(message.params, "status"@) == Some(status),
        member_of(status, "type"@) == Some(JsonView::Text("idle"@)),
    ensures
        ({
            let step = output_step(pane, sample);
            &&& pane.app_server_turn_active ==> step.events.len() > 0 && step.events.last()
                == (AgentEventView::TaskCompleted { provider: "codex"@ })
            &&& !pane.app_server_turn_active ==> step.events == settled(pane, true)
            &&& pane.app_server_turn_active ==> step.events.drop_last() == settled(pane, true)
            &&& forall|i: int|
                0 <= i < step.events.len() ==> !((#[trigger] step.events[i]) is TaskOutput)
                    && !(step.events[i] is TaskFailed)
            &&& !step.pane.app_server_turn_active
            &&& !step.pane.approval_prompt_visible
        }),
{
    lemma_methods_differ();
    lemma_kinds_differ();
    let step = output_step(pane, sample);
    if pane.app_server_turn_active {
        assert(step.events.drop_last() =~= settled(pane, true));
    }
}

/// A thread that is active and waits for no approval reports output last, and has a turn under way;
/// an approval that was awaited counts as granted.
pub proof fn law_active_thread_works(
    pane: PaneView,
    sample: SampleView,
    message: NotificationView,
    status: JsonView,
)
    requires
        brings(pane, sample, message),
        !message.is_request,
        message.method == "thread/status/changed"@,
        member_of(message.params, "status"@) == Some(status),
        member_of(status, "type"@) == Some(JsonView::Text("active"@)),
        !texts_in(member_of(status, "activeFlags"@)).contains("waitingOnApproval"@),
    ensures
        ({
            let step = output_step(pane, sample);
            &&& step.events == settled(pane, true).push(
                AgentEventView::TaskOutput { provider: "codex"@ },
            )
            &&& step.pane.app_server_turn_active
            &&& !step.pane.approval_prompt_visible
        }),
{
    lemma_methods_differ();
    lemma_kinds_differ();
}

/// A thread that is active and waits for an approval has a turn under way and an approval awaited;
/// that is reported, and nothing else, unless it was known already.
pub proof fn law_waiting_thread_asks(
    pane: PaneView,
    sample: SampleView,
    message: NotificationView,
    status: JsonView,
)
    requires
        brings(pane, sample, message),
        !message.is_request,
        message.method == "thread/status/changed"@,
        member_of(message.params, "status"@) == Some(status),
        member_of(status, "type"@) == Some(JsonView::Text("active"@)),
        texts_in(member_of(status, "activeFlags"@)).contains("waitingOnApproval"@),
    ensures
        ({
            let step = output_step(pane, sample);
            &&& step.pane.app_server_turn_active
            &&& step.pane.approval_prompt_visible
            &&& !pane.approval_prompt_visible ==> step.events.len() == 1
            &&& step.events.len() <= 1
            &&& step.events.len() == 1 ==> (step.events[0] matches AgentEventView::ApprovalRequired {
                provider,
                detail,
            } && provider == "codex"@ && detail == step.pane.approval_prompt_detail)
        }),
{
    lemma_methods_differ();
    lemma_kinds_differ();
}

/// A thread in a system error reports a failure with a reason, and nothing else.
pub proof fn law_system_error_fails(
    pane: PaneView,
    sample: SampleView,
    message: NotificationView,
    status: JsonView,
)
    requires
        brings(pane, sample, message),
        !message.is_request,
        message.method == "thread/status/changed"@,
        member_of(message.params, "status"@) == Some(status),
        member_of(status, "type"@) == Some(JsonView::Text("systemError"@)),
    ensures
        output_step(pane, sample).events.len() == 1,
        output_step(pane, sample).events[0] matches AgentEventView::TaskFailed { provider, reason }
            && provider == "codex"@ && reason is Some && reason->0.len() > 0,
{
    lemma_methods_differ();
    lemma_kinds_differ();
    reveal_strlit("codex app-server reported systemError");
}

/// A turn that starts is reported as a task that starts and works; an item of a turn, started or
/// completed, as work.
pub proof fn law_turns_start_and_work(
    pane: PaneView,
    sample: SampleView,
    message: NotificationView,
)
    requires
        brings(pane, sample, message),
        !message.is_request,
    ensures
        message.method == "turn/started"@ ==> {
            &&& output_step(pane, sample).events == seq![
                AgentEventView::TaskStarted { provider: "codex"@ },
                AgentEventView::TaskOutput { provider: "codex"@ },
            ]
            &&& output_step(pane, sample).pane.app_server_turn_active
        },
        message.method == "item/started"@ || message.method == "item/completed"@ ==> {
            &&& output_step(pane, sample).events == seq![
                AgentEventView::TaskOutput { provider: "codex"@ },
            ]
            &&& output_step(pane, sample).pane.app_server_turn_active == pane.app_server_turn_active
            &&& output_step(pane, sample).pane.approval_prompt_visible
                == pane.approval_prompt_visible
        },
{
    lemma_methods_differ();
}

/// A turn that completed is reported as a task that completed, and one that failed or was
/// interrupted as a task that failed, with the error's message where it has one; an awaited
/// approval counts as granted in the first case and as refused in the others. The turn is over.
pub proof fn law_turns_end(
    pane: PaneView,
    sample: SampleView,
    message: NotificationView,
    turn: JsonView,
)
    requires
        brings(pane, sample, message),
        !message.is_request,
        message.method == "turn/completed"@,
        member_of(message.params, "turn"@) == Some(turn),
    ensures
        ({
            let step = output_step(pane, sample);
            let status = member_of(turn, "status"@);
            &&& !step.pane.app_server_turn_active
            &&& status == Some(JsonView::Text("completed"@)) ==> step.events == settled(
                pane,
                true,
            ).push(AgentEventView::TaskCompleted { provider: "codex"@ })
            &&& status == Some(JsonView::Text("failed"@)) || status == Some(
                JsonView::Text("interrupted"@),
            ) ==> {
                &&& step.events.drop_last() == settled(pane, false)
                &&& step.events.len() > 0
                &&& !step.pane.approval_prompt_visible
                &&& step.events.last() matches AgentEventView::TaskFailed { provider, reason }
                    && provider == "codex"@ && reason is Some
            }
            &&& status == Some(JsonView::Text("failed"@)) ==> (member_of(
                turn,
                "error"@,
            ) matches Some(error) ==> (member_of(error, "message"@) matches Some(
                JsonView::Text(text),
            ) ==> step.events.last() == (AgentEventView::TaskFailed {
                provider: "codex"@,
                reason: Some(text),
            })))
        }),
{
    lemma_methods_differ();
    lemma_turns_differ();
    let step = output_step(pane, sample);
    let status = member_of(turn, "status"@);
    if status == Some(JsonView::Text("failed"@)) || status == Some(
        JsonView::Text("interrupted"@),
    ) {
        assert(step.events.drop_last() =~= settled(pane, false));
    }
}

/// An error that will be tried again is not reported; any other is reported as a failure, with the
/// error's message where it has one.
pub proof fn law_errors_fail_unless_retried(
    pane: PaneView,
    sample: SampleView,
    message: NotificationView,
)
    requires
        brings(pane, sample, message),
        !message.is_request,
        message.method == "error"@,
    ensures
        ({
            let events = output_step(pane, sample).events;
            let retried = member_of(message.params, "willRetry"@) == Some(JsonView::Bool(true));
            &&& retried ==> events.len() == 0
            &&& !retried ==> events.len() == 1 && (events[0] matches AgentEventView::TaskFailed {
                provider,
                reason,
            } && provider == "codex"@ && reason is Some)
            &&& !retried ==> (member_of(message.params, "error"@) matches Some(error)
                ==> (member_of(error, "message"@) matches Some(JsonView::Text(text))
                ==> events[0] == (AgentEventView::TaskFailed {
                provider: "codex"@,
                reason: Some(text),
            })))
        }),
{
    lemma_methods_differ();
}

/// A review of an approval that starts awaits the approval. When it completes, an approval that was
/// awaited is settled: it counts as granted exactly where the review approved it or still goes on.
pub proof fn law_reviews_ask_and_settle(
    pane: PaneView,
    sample: SampleView,
    message: NotificationView,
    review: JsonView,
)
    requires
        brings(pane, sample, message),
        !message.is_request,
        member_of(message.params, "review"@) == Some(review),
    ensures
        message.method == "item/autoApprovalReview/started"@ ==> {
            let step = output_step(pane, sample);
            &&& step.pane.approval_prompt_visible
            &&& !pane.approval_prompt_visible ==> step.events == seq![
                AgentEventView::ApprovalRequired {
                    provider: "codex"@,
                    detail: step.pane.approval_prompt_detail,
                },
            ]
            &&& member_of(review, "rationale"@) matches Some(JsonView::Text(text)) ==> trimmed(
                text,
            ).len() > 0 ==> step.pane.approval_prompt_detail == Some(
                first_chars(trimmed(text), 160),
            )
        },
        message.method == "item/autoApprovalReview/completed"@ ==> {
            let step = output_step(pane, sample);
            let status = member_of(review, "status"@);
            &&& !step.pane.approval_prompt_visible
            &&& status == Some(JsonView::Text("approved"@)) || status == Some(
                JsonView::Text("inProgress"@),
            ) ==> step.events == settled(pane, true)
            &&& status matches Some(JsonView::Text(text)) ==> text != "approved"@ && text
                != "inProgress"@ ==> step.events == settled(pane, false)
        },
{
    lemma_methods_differ();
}

/// The method is one of those that ask for an approval.
pub open spec fn asks_by(method: Seq<char>) -> bool {
    seq![
        "item/commandExecution/requestApproval"@,
        "item/fileChange/requestApproval"@,
        "item/permissions/requestApproval"@,
        "execCommandApproval"@,
        "applyPatchApproval"@,
    ].contains(method)
}

proof fn lemma_asking_methods(method: Seq<char>)
    requires
        asks_by(method),
    ensures
        method == "item/commandExecution/requestApproval"@ || method
            == "item/fileChange/requestApproval"@ || method == "item/permissions/requestApproval"@
            || method == "execCommandApproval"@ || method == "applyPatchApproval"@,
{
}

/// What is shown of a text that is not blank: its first 160 characters, without the white space
/// around it.
pub open spec fn shown_text(value: Option<JsonView>) -> Option<Seq<char>> {
    match value {
        Some(JsonView::Text(text)) => if trimmed(text).len() > 0 {
            Some(trimmed(first_chars(trimmed(text), 160)))
        } else {
            None
        },
        _ => None,
    }
}

proof fn lemma_shown_twice(text: Seq<char>)
    ensures
        shown_detail(Some(text)) is Some <==> trimmed(text).len() > 0,
        trimmed(text).len() > 0 ==> shown_detail(shown_detail(Some(text))) == Some(
            trimmed(first_chars(trimmed(text), 160)),
        ),
{
    if trimmed(text).len() > 0 {
        law_trimmed_is_stable(text);
        let cut = first_chars(trimmed(text), 160);
        assert(cut[0] == trimmed(text)[0]);
        lemma_trimmed_start_shape(cut);
        lemma_trimmed_end_shape(cut);
        assert(trimmed(cut).len() > 0);
        assert(first_chars(trimmed(cut), 160) == trimmed(cut));
    }
}

proof fn lemma_shown_as_it_is(text: Seq<char>)
    requires
        0 < text.len() <= 160,
        !whitespace(text[0]),
        !whitespace(text.last()),
    ensures
        shown_detail(Some(text)) == Some(text),
{
    law_trimming_undoes_padding(Seq::empty(), text, Seq::empty());
    assert(Seq::<char>::empty() + text + Seq::<char>::empty() =~= text);
}

proof fn lemma_fallbacks_are_shown()
    ensures
        shown_detail(Some("commandExecution/requestApproval"@)) == Some(
            "commandExecution/requestApproval"@,
        ),
        shown_detail(Some("fileChange/requestApproval"@)) == Some("fileChange/requestApproval"@),
        shown_detail(Some("permissions/requestApproval"@)) == Some("permissions/requestApproval"@),
        shown_detail(Some("execCommandApproval"@)) == Some("execCommandApproval"@),
        shown_detail(Some("applyPatchApproval"@)) == Some("applyPatchApproval"@),
{
    reveal_strlit("commandExecution/requestApproval");
    reveal_strlit("fileChange/requestApproval");
    reveal_strlit("permissions/requestApproval");
    reveal_strlit("execCommandApproval");
    reveal_strlit("applyPatchApproval");
    lemma_shown_as_it_is("commandExecution/requestApproval"@);
    lemma_shown_as_it_is("fileChange/requestApproval"@);
    lemma_shown_as_it_is("permissions/requestApproval"@);
    lemma_shown_as_it_is("execCommandApproval"@);
    lemma_shown_as_it_is("applyPatchApproval"@);
}

proof fn lemma_one_field(params: JsonView, key: Seq<char>)
    ensures
        field_detail(params, seq![key]) is Some <==> shown_text(member_of(params, key)) is Some,
        shown_detail(field_detail(params, seq![key])) == shown_text(member_of(params, key)),
{
    reveal_with_fuel(field_detail, 2);
    assert(seq![key].skip(1).len() == 0);
    match member_of(params, key) {
        Some(JsonView::Text(text)) => lemma_shown_twice(text),
        _ => {},
    }
}

proof fn lemma_two_fields(params: JsonView, first: Seq<char>, second: Seq<char>)
    ensures
        field_detail(params, seq![first, second]) is Some <==> shown_text(
            member_of(params, first),
        ) is Some || shown_text(member_of(params, second)) is Some,
        shown_detail(field_detail(params, seq![first, second])) == if shown_text(
            member_of(params, first),
        ) is Some {
            shown_text(member_of(params, first))
        } else {
            shown_text(member_of(params, second))
        },
{
    assert(seq![first, second].skip(1) =~= seq![second]);
    lemma_one_field(params, second);
    match member_of(params, first) {
        Some(JsonView::Text(text)) => lemma_shown_twice(text),
        _ => {},
    }
}

/// A request for an approval awaits it, with a detail, and has a turn under way. Where no turn was,
/// a task that starts and works is reported first; last comes the approval that is wanted, with
/// that detail, unless it was awaited with the same detail already.
pub proof fn law_requests_ask(pane: PaneView, sample: SampleView, message: NotificationView)
    requires
        brings(pane, sample, message),
        message.is_request,
        asks_by(message.method),
    ensures
        ({
            let step = output_step(pane, sample);
            let detail = step.pane.approval_prompt_detail;
            let opening = if pane.app_server_turn_active {
                Seq::empty()
            } else {
                seq![
                    AgentEventView::TaskStarted { provider: "codex"@ },
                    AgentEventView::TaskOutput { provider: "codex"@ },
                ]
            };
            &&& step.pane.app_server_turn_active
            &&& step.pane.approval_prompt_visible
            &&& detail is Some
            &&& pane.approval_prompt_visible && pane.approval_prompt_detail == detail ==> step.events
                == opening
            &&& !(pane.approval_prompt_visible && pane.approval_prompt_detail == detail)
                ==> step.events == opening.push(
                AgentEventView::ApprovalRequired { provider: "codex"@, detail },
            )
        }),
{
    lemma_asking_methods(message.method);
    lemma_requests_differ();
    lemma_fallbacks_are_shown();
    lemma_one_field(message.params, "reason"@);
    lemma_two_fields(message.params, "command"@, "reason"@);
    lemma_two_fields(message.params, "reason"@, "grantRoot"@);
    lemma_shown_twice(joined_with(texts_in(member_of(message.params, "command"@)), " "@));
    let step = output_step(pane, sample);
    let detail = step.pane.approval_prompt_detail;
    let opening = if pane.app_server_turn_active {
        Seq::empty()
    } else {
        seq![
            AgentEventView::TaskStarted { provider: "codex"@ },
            AgentEventView::TaskOutput { provider: "codex"@ },
        ]
    };
    if pane.approval_prompt_visible && pane.approval_prompt_detail == detail {
        assert(step.events =~= opening);
    } else {
        assert(step.events =~= opening.push(
            AgentEventView::ApprovalRequired { provider: "codex"@, detail },
        ));
    }
}

/// The detail of a request to run a command is the command, or else the reason, or else a text that
/// names the request; a blank text counts as none, and only the first 160 characters are shown.
pub proof fn law_command_requests_show_the_command(
    pane: PaneView,
    sample: SampleView,
    message: NotificationView,
)
    requires
        brings(pane, sample, message),
        message.is_request,
        message.method == "item/commandExecution/requestApproval"@,
    ensures
        ({
            let detail = output_step(pane, sample).pane.approval_prompt_detail;
            let command = shown_text(member_of(message.params, "command"@));
            let reason = shown_text(member_of(message.params, "reason"@));
            &&& command is Some ==> detail == command
            &&& command is None && reason is Some ==> detail == reason
            &&& command is None && reason is None ==> detail == Some(
                "commandExecution/requestApproval"@,
            )
        }),
{
    lemma_requests_differ();
    lemma_two_fields(message.params, "command"@, "reason"@);
    lemma_fallbacks_are_shown();
}

/// The detail of a request to change files is the reason, or else the root that is asked for, or
/// else a text that names the request.
pub proof fn law_file_requests_show_the_reason(
    pane: PaneView,
    sample: SampleView,
    message: NotificationView,
)
    requires
        brings(pane, sample, message),
        message.is_request,
        message.method == "item/fileChange/requestApproval"@ || message.method
            == "applyPatchApproval"@,
    ensures
        ({
            let detail = output_step(pane, sample).pane.approval_prompt_detail;
            let reason = shown_text(member_of(message.params, "reason"@));
            let root = shown_text(member_of(message.params, "grantRoot"@));
            &&& reason is Some ==> detail == reason
            &&& reason is None && root is Some ==> detail == root
            &&& reason is None && root is None ==> detail == Some(
                if message.method == "applyPatchApproval"@ {
                    "applyPatchApproval"@
                } else {
                    "fileChange/requestApproval"@
                },
            )
        }),
{
    lemma_requests_differ();
    lemma_two_fields(message.params, "reason"@, "grantRoot"@);
    lemma_fallbacks_are_shown();
}

/// The detail of a request for permissions is the reason, or else a text that names the request.
pub proof fn law_permission_requests_show_the_reason(
    pane: PaneView,
    sample: SampleView,
    message: NotificationView,
)
    requires
        brings(pane, sample, message),
        message.is_request,
        message.method == "item/permissions/requestApproval"@,
    ensures
        ({
            let detail = output_step(pane, sample).pane.approval_prompt_detail;
            let reason = shown_text(member_of(message.params, "reason"@));
            &&& reason is Some ==> detail == reason
            &&& reason is None ==> detail == Some("permissions/requestApproval"@)
        }),
{
    lemma_requests_differ();
    lemma_one_field(message.params, "reason"@);
    lemma_fallbacks_are_shown();
}

/// The detail of a request to execute a command that comes word by word is the words, joined by
/// blanks, or else the reason, or else a text that names the request.
pub proof fn law_execution_requests_show_the_words(
    pane: PaneView,
    sample: SampleView,
    message: NotificationView,
    words: Seq<JsonView>,
)
    requires
        brings(pane, sample, message),
        message.is_request,
        message.method == "execCommandApproval"@,
        member_of(message.params, "command"@) == Some(JsonView::Array(words)),
    ensures
        ({
            let detail = output_step(pane, sample).pane.approval_prompt_detail;
            let line = joined_with(texts_in(Some(JsonView::Array(words))), " "@);
            let reason = shown_text(member_of(message.params, "reason"@));
            &&& trimmed(line).len() > 0 ==> detail == Some(
                trimmed(first_chars(trimmed(line), 160)),
            )
            &&& trimmed(line).len() == 0 && reason is Some ==> detail == reason
            &&& trimmed(line).len() == 0 && reason is None ==> detail == Some("execCommandApproval"@)
        }),
{
    lemma_requests_differ();
    lemma_one_field(message.params, "reason"@);
    lemma_fallbacks_are_shown();
    let line = joined_with(texts_in(Some(JsonView::Array(words))), " "@);
    lemma_shown_twice(line);
}

/// A request with any other method is not understood.
pub proof fn law_other_requests_are_passed_over(pane: PaneView, message: NotificationView)
    requires
        message.is_request,
        !asks_by(message.method),
    ensures
        notified(pane, message) is None,
{
    let known = seq![
        "item/commandExecution/requestApproval"@,
        "item/fileChange/requestApproval"@,
        "item/permissions/requestApproval"@,
        "execCommandApproval"@,
        "applyPatchApproval"@,
    ];
    assert(known[0] == "item/commandExecution/requestApproval"@);
    assert(known[1] == "item/fileChange/requestApproval"@);
    assert(known[2] == "item/permissions/requestApproval"@);
    assert(known[3] == "execCommandApproval"@);
    assert(known[4] == "applyPatchApproval"@);
}

/// A failure that comes without a message of its own says what failed; an approval that a thread
/// waits for, or that is reviewed without a rationale, is named after that.
pub proof fn law_reasons_of_last_resort(
    pane: PaneView,
    sample: SampleView,
    message: NotificationView,
    inner: JsonView,
)
    requires
        brings(pane, sample, message),
        !message.is_request,
    ensures
        ({
            let params = message.params;
            let step = output_step(pane, sample);
            &&& message.method == "turn/completed"@ && member_of(params, "turn"@) == Some(inner)
                && member_of(inner, "status"@) == Some(JsonView::Text("failed"@)) && member_of(
                inner,
                "error"@,
            ) is None ==> step.events.last() == (AgentEventView::TaskFailed {
                provider: "codex"@,
                reason: Some("codex turn failed"@),
            })
            &&& message.method == "turn/completed"@ && member_of(params, "turn"@) == Some(inner)
                && member_of(inner, "status"@) == Some(JsonView::Text("interrupted"@))
                ==> step.events.last() == (AgentEventView::TaskFailed {
                provider: "codex"@,
                reason: Some("codex turn interrupted"@),
            })
            &&& message.method == "error"@ && member_of(params, "error"@) is None && member_of(
                params,
                "willRetry"@,
            ) is None ==> step.events.last() == (AgentEventView::TaskFailed {
                provider: "codex"@,
                reason: Some("codex app-server error"@),
            })
            &&& message.method == "thread/status/changed"@ && member_of(params, "status"@) == Some(
                inner,
            ) && member_of(inner, "type"@) == Some(JsonView::Text("systemError"@))
                ==> step.events.last() == (AgentEventView::TaskFailed {
                provider: "codex"@,
                reason: Some("codex app-server reported systemError"@),
            })
            &&& message.method == "thread/status/changed"@ && member_of(params, "status"@) == Some(
                inner,
            ) && member_of(inner, "type"@) == Some(JsonView::Text("active"@)) && texts_in(
                member_of(inner, "activeFlags"@),
            ).contains("waitingOnApproval"@) ==> step.pane.approval_prompt_detail == Some(
                "waitingOnApproval"@,
            )
            &&& message.method == "item/autoApprovalReview/started"@ && member_of(
                params,
                "review"@,
            ) is None ==> step.pane.approval_prompt_detail == Some("autoApprovalReview"@)
        }),
{
    lemma_methods_differ();
    lemma_turns_differ();
    lemma_kinds_differ();
    reveal_strlit("waitingOnApproval");
    reveal_strlit("autoApprovalReview");
    lemma_shown_as_it_is("waitingOnApproval"@);
    lemma_shown_as_it_is("autoApprovalReview"@);
}

/// A message touches neither what is known of the pane's command nor the task that its text shows;
/// it is remembered as the last one, and from then on messages are known to come.
pub proof fn law_messages_keep_the_command(
    pane: PaneView,
    sample: SampleView,
    message: NotificationView,
)
    requires
        message_in(sample.tail_text) == Some(message),
        notified(pane, message) is Some,
    ensures
        ({
            let after = output_step(pane, sample).pane;
            &&& after.last_command == pane.last_command
            &&& after.command_generation == pane.command_generation
            &&& after.last_exit_signature == pane.last_exit_signature
            &&& after.fallback_active == pane.fallback_active
            &&& after.fallback_hard_context == pane.fallback_hard_context
            &&& after.last_app_server_signature == Some(message.signature)
            &&& after.app_server_signal_seen
        }),
{
}

} // verus!
