//! What holds of the exchange with the app server, message by message.
use vstd::prelude::*;

use crate::agent_status::adapters::codex_event_laws::{
    lemma_kinds_differ, lemma_methods_differ, lemma_turns_differ,
};
use crate::agent_status::events::AgentEventView;
use crate::codex_app_server::{
    answer_to, approval_flag, channel_token, incoming_reaction, initialize_request,
    input_flag_words, input_reason_words, input_type_words, managed_start, notification_events,
    reaction_to, thread_id_in, waits_on_approval, waits_on_input, Incoming, ManagedStartView,
    ReactionView,
};
use crate::json::{member_of, parsed_json, texts_in, JsonView};
use crate::text::{begins, contains, contains_any, lowered, trimmed, words_of};

verus! {

proof fn lemma_answered_differ()
    ensures
        "item/commandExecution/requestApproval"@ != "item/fileChange/requestApproval"@,
        "item/commandExecution/requestApproval"@ != "item/permissions/requestApproval"@,
        "item/commandExecution/requestApproval"@ != "execCommandApproval"@,
        "item/commandExecution/requestApproval"@ != "applyPatchApproval"@,
        "item/commandExecution/requestApproval"@ != "item/tool/requestUserInput"@,
        "item/commandExecution/requestApproval"@ != "mcpServer/elicitation/request"@,
        "item/commandExecution/requestApproval"@ != "item/tool/call"@,
        "item/fileChange/requestApproval"@ != "item/permissions/requestApproval"@,
        "item/fileChange/requestApproval"@ != "execCommandApproval"@,
        "item/fileChange/requestApproval"@ != "applyPatchApproval"@,
        "item/fileChange/requestApproval"@ != "item/tool/requestUserInput"@,
        "item/fileChange/requestApproval"@ != "mcpServer/elicitation/request"@,
        "item/fileChange/requestApproval"@ != "item/tool/call"@,
        "item/permissions/requestApproval"@ != "execCommandApproval"@,
        "item/permissions/requestApproval"@ != "applyPatchApproval"@,
        "item/permissions/requestApproval"@ != "item/tool/requestUserInput"@,
        "item/permissions/requestApproval"@ != "mcpServer/elicitation/request"@,
        "item/permissions/requestApproval"@ != "item/tool/call"@,
        "execCommandApproval"@ != "applyPatchApproval"@,
        "execCommandApproval"@ != "item/tool/requestUserInput"@,
        "execCommandApproval"@ != "mcpServer/elicitation/request"@,
        "execCommandApproval"@ != "item/tool/call"@,
        "applyPatchApproval"@ != "item/tool/requestUserInput"@,
        "applyPatchApproval"@ != "mcpServer/elicitation/request"@,
        "applyPatchApproval"@ != "item/tool/call"@,
        "item/tool/requestUserInput"@ != "mcpServer/elicitation/request"@,
        "item/tool/requestUserInput"@ != "item/tool/call"@,
        "mcpServer/elicitation/request"@ != "item/tool/call"@,
{
    reveal_strlit("item/commandExecution/requestApproval");
    reveal_strlit("item/fileChange/requestApproval");
    reveal_strlit("item/permissions/requestApproval");
    reveal_strlit("execCommandApproval");
    reveal_strlit("applyPatchApproval");
    reveal_strlit("item/tool/requestUserInput");
    reveal_strlit("mcpServer/elicitation/request");
    reveal_strlit("item/tool/call");
    assert("item/commandExecution/requestApproval"@.len() == 37);
    assert("item/fileChange/requestApproval"@.len() == 31);
    assert("item/permissions/requestApproval"@.len() == 32);
    assert("execCommandApproval"@.len() == 19);
    assert("applyPatchApproval"@.len() == 18);
    assert("item/tool/requestUserInput"@.len() == 26);
    assert("mcpServer/elicitation/request"@.len() == 29);
    assert("item/tool/call"@.len() == 14);
}

/// A turn that starts is reported as a task that starts, an item of a turn as work, and a request
/// of the server that was settled as a granted approval.
pub proof fn law_plain_notifications(params: Option<JsonView>)
    ensures
        notification_events("turn/started"@, params) == Some(
            seq![AgentEventView::TaskStarted { provider: "codex"@ }],
        ),
        notification_events("item/started"@, params) == Some(
            seq![AgentEventView::TaskOutput { provider: "codex"@ }],
        ),
        notification_events("item/completed"@, params) == Some(
            seq![AgentEventView::TaskOutput { provider: "codex"@ }],
        ),
        notification_events("serverRequest/resolved"@, params) == Some(
            seq![AgentEventView::ApprovalResolved { provider: "codex"@, approved: true }],
        ),
{
    lemma_methods_differ();
}

/// A thread that falls idle is reported as a task that completed and nothing else, one in a system
/// error as a task that failed, with a reason, and any other kind of status not at all, but for an
/// active thread.
pub proof fn law_thread_ends(params: JsonView, status: JsonView, kind: Seq<char>)
    requires
        member_of(params, "status"@) == Some(status),
        member_of(status, "type"@) == Some(JsonView::Text(kind)),
    ensures
        ({
            let events = notification_events("thread/status/changed"@, Some(params));
            &&& kind == "idle"@ ==> events == Some(
                seq![AgentEventView::TaskCompleted { provider: "codex"@ }],
            )
            &&& kind == "systemError"@ ==> {
                &&& events is Some
                &&& events->0.len() == 1
                &&& events->0[0] matches AgentEventView::TaskFailed { provider, reason }
                    && provider == "codex"@ && reason is Some && reason->0.len() > 0
            }
            &&& kind != "active"@ && kind != "idle"@ && kind != "systemError"@ ==> events is None
        }),
{
    lemma_methods_differ();
    lemma_kinds_differ();
    reveal_strlit("codex app-server reported systemError");
}

/// An active thread with a flag that speaks of an approval, in any ASCII case, is reported as one
/// that wants an approval, and nothing else; one without any such flag or wait reason works.
pub proof fn law_active_threads(params: JsonView, status: JsonView, k: int)
    requires
        member_of(params, "status"@) == Some(status),
        member_of(status, "type"@) == Some(JsonView::Text("active"@)),
    ensures
        ({
            let events = notification_events("thread/status/changed"@, Some(params));
            let flags = texts_in(member_of(status, "activeFlags"@));
            let reason = member_of(status, "waitReason"@);
            &&& 0 <= k < flags.len() && contains(lowered(flags[k]), "approval"@) ==> {
                &&& events is Some
                &&& events->0.len() == 1
                &&& events->0[0] matches AgentEventView::ApprovalRequired { provider, detail }
                    && provider == "codex"@ && detail is Some
            }
            &&& reason matches Some(JsonView::Text(text)) ==> contains(lowered(text), "approval"@)
                ==> events is Some && events->0.len() == 1 && events->0[0] is ApprovalRequired
            &&& (forall|i: int|
                0 <= i < flags.len() ==> !contains(lowered(#[trigger] flags[i]), "approval"@)) && (
            reason matches Some(JsonView::Text(text)) ==> !contains(lowered(text), "approval"@))
                ==> events == Some(seq![AgentEventView::TaskOutput { provider: "codex"@ }])
        }),
{
    lemma_methods_differ();
    lemma_kinds_differ();
    reveal_strlit("active");
    reveal_strlit("approval");
    assert forall|at: int| !crate::text::occurs_at(lowered("active"@), "approval"@, at) by {
        assert(lowered("active"@).len() == 6);
        assert("approval"@.len() == 8);
    }
    assert(!contains(lowered("active"@), "approval"@));
}

/// The detail of an approval that an active thread waits for is the first flag that says so in any
/// ASCII case, as it is written.
pub proof fn law_approval_flag_is_first(flags: Seq<Seq<char>>, k: int)
    requires
        0 <= k < flags.len(),
        lowered(flags[k]) == lowered("waitingOnApproval"@),
        forall|i: int| 0 <= i < k ==> lowered(#[trigger] flags[i]) != lowered("waitingOnApproval"@),
    ensures
        approval_flag(flags) == flags[k],
    decreases k,
{
    if k > 0 {
        let rest = flags.skip(1);
        assert(rest[k - 1] == flags[k]);
        assert forall|i: int| 0 <= i < k - 1 implies lowered(#[trigger] rest[i]) != lowered(
            "waitingOnApproval"@,
        ) by {
            assert(rest[i] == flags[i + 1]);
        }
        assert(lowered(flags[0]) != lowered("waitingOnApproval"@));
        law_approval_flag_is_first(rest, k - 1);
    }
}

/// A turn that completed is reported as a task that completed; one that failed or was interrupted as
/// a task that failed, with the error's message where it has one. Nothing else is reported.
pub proof fn law_turn_ends(params: JsonView, turn: JsonView, status: Seq<char>)
    requires
        member_of(params, "turn"@) == Some(turn),
        member_of(turn, "status"@) == Some(JsonView::Text(status)),
    ensures
        ({
            let events = notification_events("turn/completed"@, Some(params));
            &&& events is Some
            &&& status == "completed"@ ==> events->0 == seq![
                AgentEventView::TaskCompleted { provider: "codex"@ },
            ]
            &&& status == "failed"@ || status == "interrupted"@ ==> events->0.len() == 1 && (
            events->0[0] matches AgentEventView::TaskFailed { provider, reason } && provider
                == "codex"@ && reason is Some)
            &&& status == "failed"@ ==> (member_of(turn, "error"@) matches Some(error)
                ==> (member_of(error, "message"@) matches Some(JsonView::Text(text))
                ==> events->0[0] == (AgentEventView::TaskFailed {
                provider: "codex"@,
                reason: Some(text),
            })))
            &&& status != "completed"@ && status != "failed"@ && status != "interrupted"@
                ==> events->0.len() == 0
        }),
{
    lemma_methods_differ();
    lemma_turns_differ();
}

/// An error is reported as a failure, with its message where it has one, unless it will be tried
/// again.
pub proof fn law_errors_are_reported(params: JsonView)
    ensures
        ({
            let events = notification_events("error"@, Some(params));
            let retried = member_of(params, "willRetry"@) == Some(JsonView::Bool(true));
            &&& events is Some
            &&& retried ==> events->0.len() == 0
            &&& !retried ==> events->0.len() == 1 && (
            events->0[0] matches AgentEventView::TaskFailed { provider, reason } && provider
                == "codex"@ && reason is Some)
            &&& !retried ==> (member_of(params, "error"@) matches Some(error) ==> (member_of(
                error,
                "message"@,
            ) matches Some(JsonView::Text(text)) ==> events->0[0] == (AgentEventView::TaskFailed {
                provider: "codex"@,
                reason: Some(text),
            })))
        }),
{
    lemma_methods_differ();
}

/// A review that starts wants the approval, with its rationale where it has one; when it completes,
/// the approval is granted, unless the review says something other than that it approved or goes
/// on.
pub proof fn law_reviews_are_reported(params: JsonView, review: JsonView)
    requires
        member_of(params, "review"@) == Some(review),
    ensures
        ({
            let began = notification_events("item/autoApprovalReview/started"@, Some(params));
            let over = notification_events("item/autoApprovalReview/completed"@, Some(params));
            let status = member_of(review, "status"@);
            &&& began is Some && began->0.len() == 1 && (
            began->0[0] matches AgentEventView::ApprovalRequired { provider, detail } && provider
                == "codex"@ && detail is Some)
            &&& member_of(review, "rationale"@) matches Some(JsonView::Text(text)) ==> began->0[0]
                == (AgentEventView::ApprovalRequired { provider: "codex"@, detail: Some(text) })
            &&& status matches Some(JsonView::Text(text)) ==> over == Some(
                seq![
                    AgentEventView::ApprovalResolved {
                        provider: "codex"@,
                        approved: text == "approved"@ || text == "inProgress"@,
                    },
                ],
            )
            &&& status is None ==> over == Some(
                seq![AgentEventView::ApprovalResolved { provider: "codex"@, approved: true }],
            )
        }),
{
    lemma_methods_differ();
}

/// A method that is none of these is not reported.
pub proof fn law_other_notifications_are_passed_over(
    method: Seq<char>,
    params: Option<JsonView>,
)
    requires
        !seq![
            "turn/started"@,
            "item/started"@,
            "item/completed"@,
            "thread/status/changed"@,
            "item/autoApprovalReview/started"@,
            "item/autoApprovalReview/completed"@,
            "turn/completed"@,
            "error"@,
            "serverRequest/resolved"@,
        ].contains(method),
    ensures
        notification_events(method, params) is None,
{
    let known = seq![
        "turn/started"@,
        "item/started"@,
        "item/completed"@,
        "thread/status/changed"@,
        "item/autoApprovalReview/started"@,
        "item/autoApprovalReview/completed"@,
        "turn/completed"@,
        "error"@,
        "serverRequest/resolved"@,
    ];
    assert(known[0] == "turn/started"@);
    assert(known[1] == "item/started"@);
    assert(known[2] == "item/completed"@);
    assert(known[3] == "thread/status/changed"@);
    assert(known[4] == "item/autoApprovalReview/started"@);
    assert(known[5] == "item/autoApprovalReview/completed"@);
    assert(known[6] == "turn/completed"@);
    assert(known[7] == "error"@);
    assert(known[8] == "serverRequest/resolved"@);
}

/// A status waits for an approval where its type, one of its flags or its wait reason speaks of one
/// in any ASCII case, and only there.
pub proof fn law_waiting_on_approval(status: JsonView)
    ensures
        ({
            let flags = texts_in(member_of(status, "activeFlags"@));
            let by_type = member_of(status, "type"@) matches Some(JsonView::Text(text))
                && contains(lowered(text), "approval"@);
            let by_flag = exists|i: int|
                0 <= i < flags.len() && contains(lowered(#[trigger] flags[i]), "approval"@);
            let by_reason = member_of(status, "waitReason"@) matches Some(JsonView::Text(text))
                && contains(lowered(text), "approval"@);
            &&& by_type ==> waits_on_approval(Some(status))
            &&& by_flag ==> waits_on_approval(Some(status))
            &&& by_reason ==> waits_on_approval(Some(status))
            &&& !by_type && !by_flag && !by_reason ==> !waits_on_approval(Some(status))
            &&& !waits_on_approval(None)
        }),
{
    reveal_strlit("approval");
    assert forall|at: int| !crate::text::occurs_at(lowered(Seq::empty()), "approval"@, at) by {
        assert(lowered(Seq::<char>::empty()).len() == 0);
    }
    assert(!contains(lowered(Seq::empty()), "approval"@));
}

/// A wait reason or a flag that speaks of an approval never counts as a wait for input; a type, a
/// flag or a wait reason that speaks of input, and of no approval, does.
pub proof fn law_waiting_on_input(status: JsonView, word: Seq<char>)
    ensures
        ({
            let flags = texts_in(member_of(status, "activeFlags"@));
            &&& member_of(status, "type"@) matches Some(JsonView::Text(text)) ==> seq![
                "waitingoninput"@,
                "waitingonuserinput"@,
                "waiting_for_input"@,
                "waiting_for_user_input"@,
                "awaitinginput"@,
                "awaitinguserinput"@,
                "userinput"@,
            ].contains(word) && contains(lowered(text), word) ==> waits_on_input(Some(status))
            &&& member_of(status, "waitReason"@) matches Some(JsonView::Text(text)) ==> seq![
                "input"@,
                "user"@,
                "respond"@,
                "reply"@,
            ].contains(word) && contains(lowered(text), word) && !contains(
                lowered(text),
                "approval"@,
            ) ==> waits_on_input(Some(status))
            &&& (exists|i: int|
                0 <= i < flags.len() && contains(lowered(#[trigger] flags[i]), word) && !contains(
                    lowered(flags[i]),
                    "approval"@,
                )) && seq![
                "waitingoninput"@,
                "waitingonuserinput"@,
                "waiting_for_input"@,
                "waiting_for_user_input"@,
                "awaitinginput"@,
                "awaitinguserinput"@,
                "userinput"@,
                "awaitinguser"@,
                "waitingforuser"@,
            ].contains(word) ==> waits_on_input(Some(status))
            &&& (forall|i: int|
                0 <= i < flags.len() ==> contains(lowered(#[trigger] flags[i]), "approval"@))
                && member_of(status, "type"@) is None && (member_of(
                status,
                "waitReason"@,
            ) matches Some(JsonView::Text(text)) ==> contains(lowered(text), "approval"@))
                ==> !waits_on_input(Some(status))
            &&& !waits_on_input(None)
        }),
{
    let types = seq![
        "waitingoninput"@,
        "waitingonuserinput"@,
        "waiting_for_input"@,
        "waiting_for_user_input"@,
        "awaitinginput"@,
        "awaitinguserinput"@,
        "userinput"@,
    ];
    let marks = seq![
        "waitingoninput"@,
        "waitingonuserinput"@,
        "waiting_for_input"@,
        "waiting_for_user_input"@,
        "awaitinginput"@,
        "awaitinguserinput"@,
        "userinput"@,
        "awaitinguser"@,
        "waitingforuser"@,
    ];
    let reasons = seq!["input"@, "user"@, "respond"@, "reply"@];
    let flags = texts_in(member_of(status, "activeFlags"@));
    if types.contains(word) {
        let k = choose|k: int| 0 <= k < types.len() && types[k] == word;
        assert(input_type_words()[k]@ == word);
    }
    if reasons.contains(word) {
        let k = choose|k: int| 0 <= k < reasons.len() && reasons[k] == word;
        assert(input_reason_words()[k]@ == word);
    }
    if marks.contains(word) {
        let k = choose|k: int| 0 <= k < marks.len() && marks[k] == word;
        assert(input_flag_words()[k]@ == word);
        if exists|i: int|
            0 <= i < flags.len() && contains(lowered(#[trigger] flags[i]), word) && !contains(
                lowered(flags[i]),
                "approval"@,
            ) {
            let i = choose|i: int|
                0 <= i < flags.len() && contains(lowered(#[trigger] flags[i]), word) && !contains(
                    lowered(flags[i]),
                    "approval"@,
                );
            assert(contains_any(lowered(flags[i]), input_flag_words()));
        }
    }
    reveal_strlit("waitingoninput");
    reveal_strlit("waitingonuserinput");
    reveal_strlit("waiting_for_input");
    reveal_strlit("waiting_for_user_input");
    reveal_strlit("awaitinginput");
    reveal_strlit("awaitinguserinput");
    reveal_strlit("userinput");
    let nothing = lowered(Seq::<char>::empty());
    assert(nothing.len() == 0);
    assert forall|i: int| 0 <= i < input_type_words().len() implies !contains(
        nothing,
        #[trigger] input_type_words()[i]@,
    ) by {
        assert(input_type_words()[i]@.len() > 0);
    }
}

/// The thread of a message is the one that its own id names, or else that of its thread, or else
/// that of its status; white space around the id is left off, and a blank id names none.
pub proof fn law_threads_are_found(params: JsonView, id: Seq<char>)
    ensures
        ({
            let named = if trimmed(id).len() > 0 {
                Some(trimmed(id))
            } else {
                None
            };
            let direct = member_of(params, "threadId"@);
            let thread = member_of(params, "thread"@);
            let status = member_of(params, "status"@);
            &&& direct == Some(JsonView::Text(id)) ==> thread_id_in(Some(params)) == named
            &&& direct is None && (thread matches Some(object) && member_of(object, "id"@) == Some(
                JsonView::Text(id),
            )) ==> thread_id_in(Some(params)) == named
            &&& direct is None && thread is None && (status matches Some(object) && member_of(
                object,
                "threadId"@,
            ) == Some(JsonView::Text(id))) ==> thread_id_in(Some(params)) == named
            &&& direct is None && thread is None && status is None ==> thread_id_in(
                Some(params),
            ) is None
            &&& thread_id_in(None) is None
        }),
{
}

/// Every request to approve something is answered by cancelling it; a tool call with an error; and
/// no answer grants, accepts or decides anything else.
pub proof fn law_requests_are_declined(method: Seq<char>)
    ensures
        seq![
            "item/commandExecution/requestApproval"@,
            "item/fileChange/requestApproval"@,
            "item/permissions/requestApproval"@,
            "execCommandApproval"@,
            "applyPatchApproval"@,
        ].contains(method) ==> answer_to(method) == JsonView::Object(
            seq![("decision"@, JsonView::Text("cancel"@))],
        ),
        method == "item/tool/requestUserInput"@ ==> answer_to(method) == JsonView::Object(
            seq![("answers"@, JsonView::Array(Seq::empty()))],
        ),
        method == "mcpServer/elicitation/request"@ ==> answer_to(method) == JsonView::Object(
            seq![("response"@, JsonView::Null)],
        ),
        method == "item/tool/call"@ ==> (answer_to(method) matches JsonView::Object(fields)
            && fields.len() == 1 && fields[0].0 == "error"@ && fields[0].1 is Text),
        !seq![
            "item/commandExecution/requestApproval"@,
            "item/fileChange/requestApproval"@,
            "item/permissions/requestApproval"@,
            "execCommandApproval"@,
            "applyPatchApproval"@,
            "item/tool/requestUserInput"@,
            "mcpServer/elicitation/request"@,
            "item/tool/call"@,
        ].contains(method) ==> answer_to(method) == JsonView::Object(Seq::empty()),
{
    lemma_answered_differ();
    let known = seq![
        "item/commandExecution/requestApproval"@,
        "item/fileChange/requestApproval"@,
        "item/permissions/requestApproval"@,
        "execCommandApproval"@,
        "applyPatchApproval"@,
        "item/tool/requestUserInput"@,
        "mcpServer/elicitation/request"@,
        "item/tool/call"@,
    ];
    assert(known[0] == "item/commandExecution/requestApproval"@);
    assert(known[1] == "item/fileChange/requestApproval"@);
    assert(known[2] == "item/permissions/requestApproval"@);
    assert(known[3] == "execCommandApproval"@);
    assert(known[4] == "applyPatchApproval"@);
    assert(known[5] == "item/tool/requestUserInput"@);
    assert(known[6] == "mcpServer/elicitation/request"@);
    assert(known[7] == "item/tool/call"@);
}

/// A message without an id is never answered: it is reported with its events and its thread, or
/// ignored. One with an id and no method is ignored.
pub proof fn law_notifications_are_not_answered(payload: JsonView)
    ensures
        member_of(payload, "id"@) is None ==> !(reaction_to(payload) is Send),
        member_of(payload, "id"@) is Some && member_of(payload, "method"@) is None ==> reaction_to(
            payload,
        ) == ReactionView::Ignore,
        reaction_to(payload) matches ReactionView::Report { events, thread_id } ==> {
            &&& member_of(payload, "method"@) matches Some(JsonView::Text(method))
            &&& notification_events(method, member_of(payload, "params"@)) == Some(events)
            &&& thread_id == thread_id_in(member_of(payload, "params"@))
            &&& events.len() > 0 || thread_id is Some
        },
        member_of(payload, "id"@) is None ==> (member_of(payload, "method"@) matches Some(
            JsonView::Text(method),
        ) ==> (notification_events(method, member_of(payload, "params"@)) matches Some(events)
            ==> events.len() > 0 ==> reaction_to(payload) == (ReactionView::Report {
            events,
            thread_id: thread_id_in(member_of(payload, "params"@)),
        }))),
{
}

/// The end of the stream and a close finish the exchange, a ping is answered, and text that is no
/// JSON is ignored.
pub proof fn law_stream_messages(message: Incoming)
    ensures
        message is Close || message is End <==> incoming_reaction(message) == ReactionView::Finish,
        message is Ping <==> incoming_reaction(message) == ReactionView::AnswerPing,
        message matches Incoming::Text(text) ==> parsed_json(text@) is None ==> incoming_reaction(
            message,
        ) == ReactionView::Ignore,
        message matches Incoming::Text(text) ==> (parsed_json(text@) matches Some(payload)
            ==> incoming_reaction(message) == reaction_to(payload)),
{
}

/// The first request of the exchange names the method, the id and this client with its version.
pub proof fn law_first_request(id: u64, version: Seq<char>)
    ensures
        ({
            let request = initialize_request(id, version);
            let params = member_of(request, "params"@);
            let client = member_of(params->0, "clientInfo"@);
            &&& member_of(request, "method"@) == Some(JsonView::Text("initialize"@))
            &&& member_of(request, "id"@) == Some(
                JsonView::Number(crate::json::integer_number(id)),
            )
            &&& params is Some
            &&& client is Some
            &&& member_of(client->0, "name"@) == Some(JsonView::Text("kaku-gui"@))
            &&& member_of(client->0, "version"@) == Some(JsonView::Text(version))
        }),
{
    reveal_strlit("id");
    reveal_strlit("method");
    reveal_strlit("params");
    reveal_strlit("clientInfo");
    reveal_strlit("name");
    reveal_strlit("version");
    reveal_strlit("capabilities");
    assert("id"@.len() == 2);
    assert("method"@.len() == 6);
    assert("params"@.len() == 6);
    assert("method"@[0] != "params"@[0]);
    assert("name"@.len() == 4);
    assert("version"@.len() == 7);
    let request = initialize_request(id, version);
    reveal_with_fuel(crate::json::first_field, 4);
}

/// The variable that names an app server opens a channel to the first address in it, with the token
/// that is set beside it, where the address is a web socket's; the word for stopping stops the
/// channel, and a blank value stops it and is passed on; anything else is passed on, and so is every
/// other variable.
pub proof fn law_channels_are_asked_for(
    value: Seq<char>,
    vars: Map<Seq<char>, Seq<char>>,
    name: Seq<char>,
)
    ensures
        ({
            let asked = managed_start("kaku_codex_app_server_ws"@, value, vars);
            let words = words_of(value);
            &&& words.len() == 0 ==> asked == ManagedStartView::StopAndPass
            &&& words.len() > 0 && words[0] == "__stop__"@ ==> asked == ManagedStartView::Stop
            &&& words.len() > 0 && (begins(words[0], "ws://"@) || begins(words[0], "wss://"@))
                ==> asked == (ManagedStartView::Start {
                url: words[0],
                token: channel_token(vars),
            })
            &&& words.len() > 0 && words[0] != "__stop__"@ && !begins(words[0], "ws://"@)
                && !begins(words[0], "wss://"@) ==> asked == ManagedStartView::Pass
            &&& name != "kaku_codex_app_server_ws"@ ==> managed_start(name, value, vars)
                == ManagedStartView::Pass
        }),
        channel_token(vars) matches Some(token) ==> {
            &&& vars.dom().contains("kaku_codex_app_server_token"@)
            &&& token == trimmed(vars["kaku_codex_app_server_token"@])
            &&& token.len() > 0
        },
        vars.dom().contains("kaku_codex_app_server_token"@) && trimmed(
            vars["kaku_codex_app_server_token"@],
        ).len() > 0 ==> channel_token(vars) is Some,
{
    reveal_strlit("__stop__");
    reveal_strlit("ws://");
    reveal_strlit("wss://");
    if words_of(value).len() > 0 && words_of(value)[0] == "__stop__"@ {
        let word = words_of(value)[0];
        if begins(word, "ws://"@) {
            assert(word.subrange(0, 5)[0] == 'w');
        }
        if begins(word, "wss://"@) {
            assert(word.subrange(0, 6)[0] == 'w');
        }
    }
}

/// A failure that comes without a message of its own says what failed, and a review without a
/// rationale what it is.
pub proof fn law_reasons_of_last_resort(params: JsonView, inner: JsonView)
    ensures
        member_of(params, "turn"@) == Some(inner) && member_of(inner, "status"@) == Some(
            JsonView::Text("failed"@),
        ) && member_of(inner, "error"@) is None ==> notification_events(
            "turn/completed"@,
            Some(params),
        ) == Some(seq![failed_with("codex turn failed"@)]),
        member_of(params, "turn"@) == Some(inner) && member_of(inner, "status"@) == Some(
            JsonView::Text("interrupted"@),
        ) ==> notification_events("turn/completed"@, Some(params)) == Some(
            seq![failed_with("codex turn interrupted"@)],
        ),
        member_of(params, "error"@) is None && member_of(params, "willRetry"@) is None
            ==> notification_events("error"@, Some(params)) == Some(
            seq![failed_with("codex app-server error"@)],
        ),
        member_of(params, "status"@) == Some(inner) && member_of(inner, "type"@) == Some(
            JsonView::Text("systemError"@),
        ) ==> notification_events("thread/status/changed"@, Some(params)) == Some(
            seq![failed_with("codex app-server reported systemError"@)],
        ),
        member_of(params, "review"@) is None ==> notification_events(
            "item/autoApprovalReview/started"@,
            Some(params),
        ) == Some(
            seq![
                AgentEventView::ApprovalRequired {
                    provider: "codex"@,
                    detail: Some("autoApprovalReview"@),
                },
            ],
        ),
{
    lemma_methods_differ();
    lemma_turns_differ();
    lemma_kinds_differ();
}

/// A task of Codex that failed for this reason.
pub open spec fn failed_with(reason: Seq<char>) -> AgentEventView {
    AgentEventView::TaskFailed { provider: "codex"@, reason: Some(reason) }
}

} // verus!
