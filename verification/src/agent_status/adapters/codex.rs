//! Codex: the status of its tasks, read from shell variables, app-server messages and prompts.
use vstd::hash_map::StringHashMap;
use vstd::prelude::*;

use crate::agent_status::adapters::codex_output::{
    extract_app_server_notification, extract_approval_prompt, message_in, prompt_in,
    AppServerNotification, NotificationView, DETAIL_CHARS,
};
use crate::agent_status::adapters::{
    AgentAdapter, AgentPaneOutputSample, AgentSignal, SampleView, UserVars,
};
use crate::agent_status::codex_context::{
    codex_command, codex_process, is_codex_like_command, is_codex_process_name,
};
use crate::agent_status::events::{AgentEvent, AgentEventView};
use crate::json::{
    as_text, as_text_or, as_text_or_empty, is_true, items_in, member, member_of, seen, text_in,
    text_or, text_or_empty, texts, texts_in, truth_in, within, within_of, Json, JsonView,
};
use crate::numbers::{
    decimal, decimal_of, i32_of, parse_i32, signed_decimal, signed_decimal_of,
};
use crate::text::{
    copy_optional_text, first_chars, holds, is_blank, is_empty, join, joined_with,
    same_optional_text, same_text, take_chars, trim, trimmed,
};

verus! {

/// What is remembered of one pane.
#[derive(Debug)]
pub struct PaneRuntimeState {
    pub last_command: Option<String>,
    pub command_generation: u64,
    pub last_exit_signature: Option<String>,
    pub fallback_active: bool,
    pub fallback_hard_context: bool,
    pub approval_prompt_visible: bool,
    pub approval_prompt_detail: Option<String>,
    pub last_app_server_signature: Option<String>,
    pub app_server_turn_active: bool,
    pub app_server_signal_seen: bool,
}

/// A [`PaneRuntimeState`] over sequences.
pub struct PaneView {
    pub last_command: Option<Seq<char>>,
    pub command_generation: u64,
    pub last_exit_signature: Option<Seq<char>>,
    pub fallback_active: bool,
    pub fallback_hard_context: bool,
    pub approval_prompt_visible: bool,
    pub approval_prompt_detail: Option<Seq<char>>,
    pub last_app_server_signature: Option<Seq<char>>,
    pub app_server_turn_active: bool,
    pub app_server_signal_seen: bool,
}

impl DeepView for PaneRuntimeState {
    type V = PaneView;

    open spec fn deep_view(&self) -> PaneView {
        PaneView {
            last_command: self.last_command.deep_view(),
            command_generation: self.command_generation,
            last_exit_signature: self.last_exit_signature.deep_view(),
            fallback_active: self.fallback_active,
            fallback_hard_context: self.fallback_hard_context,
            approval_prompt_visible: self.approval_prompt_visible,
            approval_prompt_detail: self.approval_prompt_detail.deep_view(),
            last_app_server_signature: self.last_app_server_signature.deep_view(),
            app_server_turn_active: self.app_server_turn_active,
            app_server_signal_seen: self.app_server_signal_seen,
        }
    }
}

impl Clone for PaneRuntimeState {
    fn clone(&self) -> (r: PaneRuntimeState)
        ensures
            r == *self,
    {
        PaneRuntimeState {
            last_command: copy_optional_text(&self.last_command),
            command_generation: self.command_generation,
            last_exit_signature: copy_optional_text(&self.last_exit_signature),
            fallback_active: self.fallback_active,
            fallback_hard_context: self.fallback_hard_context,
            approval_prompt_visible: self.approval_prompt_visible,
            approval_prompt_detail: copy_optional_text(&self.approval_prompt_detail),
            last_app_server_signature: copy_optional_text(&self.last_app_server_signature),
            app_server_turn_active: self.app_server_turn_active,
            app_server_signal_seen: self.app_server_signal_seen,
        }
    }
}

/// A pane of which nothing has been seen.
pub open spec fn fresh_pane() -> PaneView {
    PaneView {
        last_command: None,
        command_generation: 0,
        last_exit_signature: None,
        fallback_active: false,
        fallback_hard_context: false,
        approval_prompt_visible: false,
        approval_prompt_detail: None,
        last_app_server_signature: None,
        app_server_turn_active: false,
        app_server_signal_seen: false,
    }
}

impl Default for PaneRuntimeState {
    fn default() -> (r: PaneRuntimeState)
        ensures
            r.deep_view() == fresh_pane(),
    {
        PaneRuntimeState {
            last_command: None,
            command_generation: 0,
            last_exit_signature: None,
            fallback_active: false,
            fallback_hard_context: false,
            approval_prompt_visible: false,
            approval_prompt_detail: None,
            last_app_server_signature: None,
            app_server_turn_active: false,
            app_server_signal_seen: false,
        }
    }
}

/// A pane after a signal, and the events that the signal produced.
pub struct Step {
    pub pane: PaneView,
    pub events: Seq<AgentEventView>,
}

/// Nothing changes and nothing is reported.
pub open spec fn unmoved(pane: PaneView) -> Step {
    Step { pane, events: Seq::empty() }
}

// ---------------------------------------------------------------------------
// Events
// ---------------------------------------------------------------------------

pub open spec fn started() -> AgentEventView {
    AgentEventView::TaskStarted { provider: "codex"@ }
}

pub open spec fn output() -> AgentEventView {
    AgentEventView::TaskOutput { provider: "codex"@ }
}

pub open spec fn completed() -> AgentEventView {
    AgentEventView::TaskCompleted { provider: "codex"@ }
}

pub open spec fn failed(reason: Seq<char>) -> AgentEventView {
    AgentEventView::TaskFailed { provider: "codex"@, reason: Some(reason) }
}

pub open spec fn required(detail: Option<Seq<char>>) -> AgentEventView {
    AgentEventView::ApprovalRequired { provider: "codex"@, detail }
}

pub open spec fn resolved(approved: bool) -> AgentEventView {
    AgentEventView::ApprovalResolved { provider: "codex"@, approved }
}

/// The event names Codex.
pub open spec fn codex_provider(event: AgentEventView) -> bool {
    match event {
        AgentEventView::TaskStarted { provider } => provider == "codex"@,
        AgentEventView::TaskOutput { provider } => provider == "codex"@,
        AgentEventView::ApprovalRequired { provider, detail } => provider == "codex"@,
        AgentEventView::ApprovalResolved { provider, approved } => provider == "codex"@,
        AgentEventView::TaskCompleted { provider } => provider == "codex"@,
        AgentEventView::TaskFailed { provider, reason } => provider == "codex"@,
    }
}

fn task_started_event() -> (r: AgentEvent)
    ensures
        r.deep_view() == started(),
{
    AgentEvent::TaskStarted { provider: "codex".to_owned() }
}

fn task_output_event() -> (r: AgentEvent)
    ensures
        r.deep_view() == output(),
{
    AgentEvent::TaskOutput { provider: "codex".to_owned() }
}

fn task_completed_event() -> (r: AgentEvent)
    ensures
        r.deep_view() == completed(),
{
    AgentEvent::TaskCompleted { provider: "codex".to_owned() }
}

fn task_failed_event(reason: String) -> (r: AgentEvent)
    ensures
        r.deep_view() == failed(reason@),
{
    AgentEvent::TaskFailed { provider: "codex".to_owned(), reason: Some(reason) }
}

fn approval_required_event(detail: Option<String>) -> (r: AgentEvent)
    ensures
        r.deep_view() == required(detail.deep_view()),
{
    AgentEvent::ApprovalRequired { provider: "codex".to_owned(), detail }
}

fn approval_resolved_event(approved: bool) -> (r: AgentEvent)
    ensures
        r.deep_view() == resolved(approved),
{
    AgentEvent::ApprovalResolved { provider: "codex".to_owned(), approved }
}

fn no_events() -> (r: Vec<AgentEvent>)
    ensures
        r.deep_view() == Seq::<AgentEventView>::empty(),
{
    let r: Vec<AgentEvent> = Vec::new();
    assert(r.deep_view() =~= Seq::<AgentEventView>::empty());
    r
}

fn add_event(events: &mut Vec<AgentEvent>, event: AgentEvent)
    ensures
        final(events).deep_view() == old(events).deep_view().push(event.deep_view()),
{
    let ghost before = events.deep_view();
    events.push(event);
    assert(events.deep_view() =~= before.push(event.deep_view()));
}

fn add_events(events: &mut Vec<AgentEvent>, more: Vec<AgentEvent>)
    ensures
        final(events).deep_view() == old(events).deep_view() + more.deep_view(),
{
    let ghost before = events.deep_view();
    let ghost added = more.deep_view();
    let mut more = more;
    events.append(&mut more);
    assert(events.deep_view() =~= before + added);
}

// ---------------------------------------------------------------------------
// Approvals
// ---------------------------------------------------------------------------

/// The detail that is shown: trimmed, cut to its length, and absent where it is blank.
pub open spec fn shown_detail(detail: Option<Seq<char>>) -> Option<Seq<char>> {
    match detail {
        Some(text) => if trimmed(text).len() > 0 {
            Some(first_chars(trimmed(text), DETAIL_CHARS as nat))
        } else {
            None
        },
        None => None,
    }
}

/// An approval is wanted: reported unless the same one is already shown.
pub open spec fn wants_approval(pane: PaneView, detail: Option<Seq<char>>) -> Step {
    let shown = shown_detail(detail);
    Step {
        pane: PaneView { approval_prompt_visible: true, approval_prompt_detail: shown, ..pane },
        events: if pane.approval_prompt_visible && pane.approval_prompt_detail == shown {
            Seq::empty()
        } else {
            seq![required(shown)]
        },
    }
}

/// A shown approval is settled; where none is shown, nothing happens.
pub open spec fn settles_approval(pane: PaneView, approved: bool) -> Step {
    if pane.approval_prompt_visible {
        Step {
            pane: PaneView { approval_prompt_visible: false, approval_prompt_detail: None, ..pane },
            events: seq![resolved(approved)],
        }
    } else {
        unmoved(pane)
    }
}

/// A shown approval is settled, and an event follows.
pub open spec fn settles_and(pane: PaneView, approved: bool, event: AgentEventView) -> Step {
    let step = settles_approval(pane, approved);
    Step { pane: step.pane, events: step.events.push(event) }
}

fn mark_approval_required(state: &mut PaneRuntimeState, detail: Option<String>) -> (r: Vec<
    AgentEvent,
>)
    ensures
        (Step { pane: final(state).deep_view(), events: r.deep_view() }) == wants_approval(
            old(state).deep_view(),
            detail.deep_view(),
        ),
{
    let shown: Option<String> = match detail {
        Some(text) => {
            let value = trim(text.as_str());
            if is_empty(value.as_str()) {
                None
            } else {
                Some(take_chars(value.as_str(), DETAIL_CHARS))
            }
        },
        None => None,
    };
    let known = state.approval_prompt_visible && same_optional_text(
        &state.approval_prompt_detail,
        &shown,
    );
    state.approval_prompt_visible = true;
    state.approval_prompt_detail = copy_optional_text(&shown);
    let mut events = no_events();
    if !known {
        add_event(&mut events, approval_required_event(shown));
    }
    events
}

fn mark_approval_resolved_if_visible(
    state: &mut PaneRuntimeState,
    approved: bool,
    events: &mut Vec<AgentEvent>,
)
    ensures
        ({
            let step = settles_approval(old(state).deep_view(), approved);
            &&& final(state).deep_view() == step.pane
            &&& final(events).deep_view() == old(events).deep_view() + step.events
        }),
{
    let ghost before = events.deep_view();
    if state.approval_prompt_visible {
        state.approval_prompt_visible = false;
        state.approval_prompt_detail = None;
        add_event(events, approval_resolved_event(approved));
        assert(before.push(resolved(approved)) =~= before + seq![resolved(approved)]);
    } else {
        assert(before + Seq::<AgentEventView>::empty() =~= before);
    }
}

fn settle_and(state: &mut PaneRuntimeState, approved: bool, event: AgentEvent) -> (r: Vec<
    AgentEvent,
>)
    ensures
        (Step { pane: final(state).deep_view(), events: r.deep_view() }) == settles_and(
            old(state).deep_view(),
            approved,
            event.deep_view(),
        ),
{
    let mut events = no_events();
    mark_approval_resolved_if_visible(state, approved, &mut events);
    add_event(&mut events, event);
    proof {
        let step = settles_approval(old(state).deep_view(), approved);
        assert(Seq::<AgentEventView>::empty() + step.events =~= step.events);
    }
    events
}

// ---------------------------------------------------------------------------
// App-server messages
// ---------------------------------------------------------------------------

/// A thread whose active flags name an outstanding approval.
pub open spec fn waits_on_approval(status: Option<JsonView>) -> bool {
    texts_in(within_of(status, "activeFlags"@)).contains("waitingOnApproval"@)
}

/// What a change of thread status does; `None` for a status that says nothing.
pub open spec fn thread_status_step(pane: PaneView, params: JsonView) -> Option<Step> {
    let status = member_of(params, "status"@);
    let kind = text_or_empty(within_of(status, "type"@));
    if kind == "active"@ {
        let active = PaneView { app_server_turn_active: true, ..pane };
        if waits_on_approval(status) {
            Some(wants_approval(active, Some("waitingOnApproval"@)))
        } else {
            Some(settles_and(active, true, output()))
        }
    } else if kind == "idle"@ {
        let idle = PaneView { app_server_turn_active: false, ..pane };
        if pane.app_server_turn_active {
            Some(settles_and(idle, true, completed()))
        } else {
            Some(settles_approval(idle, true))
        }
    } else if kind == "systemError"@ {
        Some(Step { pane, events: seq![failed("codex app-server reported systemError"@)] })
    } else {
        None
    }
}

/// What the end of a turn does.
pub open spec fn turn_completed_step(pane: PaneView, params: JsonView) -> Step {
    let over = PaneView { app_server_turn_active: false, ..pane };
    let turn = member_of(params, "turn"@);
    let status = text_or_empty(within_of(turn, "status"@));
    if status == "completed"@ {
        settles_and(over, true, completed())
    } else if status == "failed"@ {
        let message = within_of(within_of(turn, "error"@), "message"@);
        settles_and(over, false, failed(text_or(message, "codex turn failed"@)))
    } else if status == "interrupted"@ {
        settles_and(over, false, failed("codex turn interrupted"@))
    } else {
        unmoved(over)
    }
}

/// The first of these members that is a text and not blank, trimmed and cut to the length of a
/// detail.
pub open spec fn field_detail(params: JsonView, keys: Seq<Seq<char>>) -> Option<Seq<char>>
    decreases keys.len(),
{
    if keys.len() == 0 {
        None
    } else {
        match shown_detail(text_in(member_of(params, keys[0]))) {
            Some(detail) => Some(detail),
            None => field_detail(params, keys.skip(1)),
        }
    }
}

/// The detail of a command execution: its words with blanks between them, or else its reason.
pub open spec fn command_detail(params: JsonView) -> Option<Seq<char>> {
    let command = member_of(params, "command"@);
    let words = if items_in(command) is Some {
        shown_detail(Some(joined_with(texts_in(command), " "@)))
    } else {
        None
    };
    match words {
        Some(detail) => Some(detail),
        None => field_detail(params, seq!["reason"@]),
    }
}

/// A detail that was found, or else a fixed one.
pub open spec fn or_else(detail: Option<Seq<char>>, fallback: Seq<char>) -> Option<Seq<char>> {
    match detail {
        Some(text) => Some(text),
        None => Some(fallback),
    }
}

/// The detail of a request for approval; `None` for any other request.
pub open spec fn request_detail(method: Seq<char>, params: JsonView) -> Option<Option<Seq<char>>> {
    if method == "item/commandExecution/requestApproval"@ {
        Some(
            or_else(
                field_detail(params, seq!["command"@, "reason"@]),
                "commandExecution/requestApproval"@,
            ),
        )
    } else if method == "item/fileChange/requestApproval"@ {
        Some(
            or_else(
                field_detail(params, seq!["reason"@, "grantRoot"@]),
                "fileChange/requestApproval"@,
            ),
        )
    } else if method == "item/permissions/requestApproval"@ {
        Some(or_else(field_detail(params, seq!["reason"@]), "permissions/requestApproval"@))
    } else if method == "execCommandApproval"@ {
        Some(or_else(command_detail(params), "execCommandApproval"@))
    } else if method == "applyPatchApproval"@ {
        Some(
            or_else(field_detail(params, seq!["reason"@, "grantRoot"@]), "applyPatchApproval"@),
        )
    } else {
        None
    }
}

/// What a request does: a request for approval is reported, after the start of its turn where no
/// turn was known to be under way.
pub open spec fn request_step(pane: PaneView, message: NotificationView) -> Option<Step> {
    match request_detail(message.method, message.params) {
        None => None,
        Some(detail) => {
            let step = wants_approval(PaneView { app_server_turn_active: true, ..pane }, detail);
            let opening = if pane.app_server_turn_active {
                Seq::empty()
            } else {
                seq![started(), output()]
            };
            Some(Step { pane: step.pane, events: opening + step.events })
        },
    }
}

/// What a message does; `None` for one that is not understood.
pub open spec fn message_step(pane: PaneView, message: NotificationView) -> Option<Step> {
    let params = message.params;
    if message.is_request {
        request_step(pane, message)
    } else if message.method == "turn/started"@ {
        Some(
            Step {
                pane: PaneView { app_server_turn_active: true, ..pane },
                events: seq![started(), output()],
            },
        )
    } else if message.method == "item/started"@ || message.method == "item/completed"@ {
        Some(Step { pane, events: seq![output()] })
    } else if message.method == "thread/status/changed"@ {
        thread_status_step(pane, params)
    } else if message.method == "item/autoApprovalReview/started"@ {
        let rationale = within_of(member_of(params, "review"@), "rationale"@);
        Some(wants_approval(pane, Some(text_or(rationale, "autoApprovalReview"@))))
    } else if message.method == "item/autoApprovalReview/completed"@ {
        let status = text_or_empty(within_of(member_of(params, "review"@), "status"@));
        Some(settles_approval(pane, status == "approved"@ || status == "inProgress"@))
    } else if message.method == "turn/completed"@ {
        Some(turn_completed_step(pane, params))
    } else if message.method == "error"@ {
        if truth_in(member_of(params, "willRetry"@)) {
            Some(unmoved(pane))
        } else {
            let reason = within_of(member_of(params, "error"@), "message"@);
            Some(Step { pane, events: seq![failed(text_or(reason, "codex app-server error"@))] })
        }
    } else {
        None
    }
}

/// What a message that was read from output does: as [`message_step`] says, and from now on
/// messages count rather than text. A message that is the same as the last one reports nothing.
pub open spec fn notified(pane: PaneView, message: NotificationView) -> Option<Step> {
    match message_step(pane, message) {
        None => None,
        Some(step) => Some(
            Step {
                pane: PaneView {
                    app_server_signal_seen: true,
                    last_app_server_signature: Some(message.signature),
                    ..step.pane
                },
                events: if pane.last_app_server_signature == Some(message.signature) {
                    Seq::empty()
                } else {
                    step.events
                },
            },
        ),
    }
}

fn is_waiting_on_approval_status(status: Option<&Json>) -> (r: bool)
    ensures
        r == waits_on_approval(seen(status)),
{
    holds(&texts(within(status, "activeFlags")), "waitingOnApproval")
}

fn map_thread_status_changed(state: &mut PaneRuntimeState, params: &Json) -> (r: Option<
    Vec<AgentEvent>,
>)
    ensures
        match r {
            Some(events) => thread_status_step(old(state).deep_view(), params.content()) == Some(
                Step { pane: final(state).deep_view(), events: events.deep_view() },
            ),
            None => thread_status_step(old(state).deep_view(), params.content()) is None && *final(state) == *old(state),
        },
{
    let status = member(params, "status");
    let kind = as_text_or_empty(within(status, "type"));
    let kind = kind.as_str();
    if same_text(kind, "active") {
        state.app_server_turn_active = true;
        if is_waiting_on_approval_status(status) {
            return Some(mark_approval_required(state, Some("waitingOnApproval".to_owned())));
        }
        Some(settle_and(state, true, task_output_event()))
    } else if same_text(kind, "idle") {
        let was_active = state.app_server_turn_active;
        state.app_server_turn_active = false;
        if was_active {
            Some(settle_and(state, true, task_completed_event()))
        } else {
            let mut events = no_events();
            let ghost idle = state.deep_view();
            mark_approval_resolved_if_visible(state, true, &mut events);
            assert(events.deep_view() =~= settles_approval(idle, true).events);
            Some(events)
        }
    } else if same_text(kind, "systemError") {
        let mut events = no_events();
        add_event(
            &mut events,
            task_failed_event("codex app-server reported systemError".to_owned()),
        );
        assert(events.deep_view() =~= seq![failed("codex app-server reported systemError"@)]);
        Some(events)
    } else {
        None
    }
}

fn map_turn_completed(state: &mut PaneRuntimeState, params: &Json) -> (r: Vec<AgentEvent>)
    ensures
        (Step { pane: final(state).deep_view(), events: r.deep_view() }) == turn_completed_step(
            old(state).deep_view(),
            params.content(),
        ),
{
    state.app_server_turn_active = false;
    let turn = member(params, "turn");
    let status = as_text_or_empty(within(turn, "status"));
    let status = status.as_str();
    if same_text(status, "completed") {
        settle_and(state, true, task_completed_event())
    } else if same_text(status, "failed") {
        let message = within(within(turn, "error"), "message");
        settle_and(state, false, task_failed_event(as_text_or(message, "codex turn failed")))
    } else if same_text(status, "interrupted") {
        settle_and(state, false, task_failed_event("codex turn interrupted".to_owned()))
    } else {
        no_events()
    }
}

fn shown(detail: &str) -> (r: Option<String>)
    ensures
        r.deep_view() == shown_detail(Some(detail@)),
{
    let value = trim(detail);
    if is_empty(value.as_str()) {
        None
    } else {
        Some(take_chars(value.as_str(), DETAIL_CHARS))
    }
}

/// The character sequences of these keys.
pub open spec fn key_texts(keys: Seq<&str>) -> Seq<Seq<char>> {
    Seq::new(keys.len(), |i: int| keys[i]@)
}

fn extract_string_field(params: &Json, keys: &Vec<&str>) -> (r: Option<String>)
    ensures
        r.deep_view() == field_detail(params.content(), key_texts(keys@)),
{
    let ghost all = key_texts(keys@);
    let mut i: usize = 0;
    assert(all.skip(0) =~= all);
    while i < keys.len()
        invariant
            i <= keys@.len(),
            all == key_texts(keys@),
            field_detail(params.content(), all) == field_detail(
                params.content(),
                all.skip(i as int),
            ),
        decreases keys@.len() - i,
    {
        assert(all.skip(i as int)[0] == keys@[i as int]@);
        assert(all.skip(i as int).skip(1) =~= all.skip(i + 1));
        match as_text(member(params, keys[i])) {
            Some(value) => {
                let detail = shown(value);
                if detail.is_some() {
                    return detail;
                }
            },
            None => {},
        }
        i = i + 1;
    }
    None
}

fn extract_exec_command_approval_detail(params: &Json) -> (r: Option<String>)
    ensures
        r.deep_view() == command_detail(params.content()),
{
    let command = member(params, "command");
    match command {
        Some(Json::Array(_)) => {
            let words = texts(command);
            let detail = shown(join(&words, " ").as_str());
            if detail.is_some() {
                return detail;
            }
        },
        _ => {},
    }
    let keys: Vec<&str> = vec!["reason"];
    assert(key_texts(keys@) =~= seq!["reason"@]);
    extract_string_field(params, &keys)
}

fn detail_or(detail: Option<String>, fallback: &str) -> (r: Option<String>)
    ensures
        r.deep_view() == or_else(detail.deep_view(), fallback@),
{
    match detail {
        Some(text) => Some(text),
        None => Some(fallback.to_owned()),
    }
}

fn approval_request_detail(method: &str, params: &Json) -> (r: Option<Option<String>>)
    ensures
        match r {
            Some(detail) => request_detail(method@, params.content()) == Some(detail.deep_view()),
            None => request_detail(method@, params.content()) is None,
        },
{
    let command_reason: Vec<&str> = vec!["command", "reason"];
    let reason_root: Vec<&str> = vec!["reason", "grantRoot"];
    let reason: Vec<&str> = vec!["reason"];
    assert(key_texts(command_reason@) =~= seq!["command"@, "reason"@]);
    assert(key_texts(reason_root@) =~= seq!["reason"@, "grantRoot"@]);
    assert(key_texts(reason@) =~= seq!["reason"@]);
    if same_text(method, "item/commandExecution/requestApproval") {
        Some(
            detail_or(
                extract_string_field(params, &command_reason),
                "commandExecution/requestApproval",
            ),
        )
    } else if same_text(method, "item/fileChange/requestApproval") {
        Some(detail_or(extract_string_field(params, &reason_root), "fileChange/requestApproval"))
    } else if same_text(method, "item/permissions/requestApproval") {
        Some(detail_or(extract_string_field(params, &reason), "permissions/requestApproval"))
    } else if same_text(method, "execCommandApproval") {
        Some(detail_or(extract_exec_command_approval_detail(params), "execCommandApproval"))
    } else if same_text(method, "applyPatchApproval") {
        Some(detail_or(extract_string_field(params, &reason_root), "applyPatchApproval"))
    } else {
        None
    }
}

fn map_app_server_request(
    state: &mut PaneRuntimeState,
    notification: &AppServerNotification,
) -> (r: Option<Vec<AgentEvent>>)
    ensures
        match r {
            Some(events) => request_step(old(state).deep_view(), notification.deep_view()) == Some(
                Step { pane: final(state).deep_view(), events: events.deep_view() },
            ),
            None => request_step(old(state).deep_view(), notification.deep_view()) is None
                && *final(state) == *old(state),
        },
{
    match approval_request_detail(notification.method.as_str(), &notification.params) {
        None => None,
        Some(detail) => {
            let mut events = no_events();
            if !state.app_server_turn_active {
                state.app_server_turn_active = true;
                add_event(&mut events, task_started_event());
                add_event(&mut events, task_output_event());
                assert(events.deep_view() =~= seq![started(), output()]);
            }
            let more = mark_approval_required(state, detail);
            add_events(&mut events, more);
            Some(events)
        },
    }
}

fn map_app_server_notification(
    state: &mut PaneRuntimeState,
    notification: &AppServerNotification,
) -> (r: Option<Vec<AgentEvent>>)
    ensures
        match r {
            Some(events) => message_step(old(state).deep_view(), notification.deep_view()) == Some(
                Step { pane: final(state).deep_view(), events: events.deep_view() },
            ),
            None => message_step(old(state).deep_view(), notification.deep_view()) is None
                && *final(state) == *old(state),
        },
{
    if notification.is_request {
        return map_app_server_request(state, notification);
    }
    let method = notification.method.as_str();
    let params = &notification.params;
    if same_text(method, "turn/started") {
        state.app_server_turn_active = true;
        let mut events = no_events();
        add_event(&mut events, task_started_event());
        add_event(&mut events, task_output_event());
        assert(events.deep_view() =~= seq![started(), output()]);
        Some(events)
    } else if same_text(method, "item/started") || same_text(method, "item/completed") {
        let mut events = no_events();
        add_event(&mut events, task_output_event());
        assert(events.deep_view() =~= seq![output()]);
        Some(events)
    } else if same_text(method, "thread/status/changed") {
        map_thread_status_changed(state, params)
    } else if same_text(method, "item/autoApprovalReview/started") {
        let rationale = within(member(params, "review"), "rationale");
        Some(mark_approval_required(state, Some(as_text_or(rationale, "autoApprovalReview"))))
    } else if same_text(method, "item/autoApprovalReview/completed") {
        let status = as_text_or_empty(within(member(params, "review"), "status"));
        let approved = same_text(status.as_str(), "approved") || same_text(
            status.as_str(),
            "inProgress",
        );
        let mut events = no_events();
        mark_approval_resolved_if_visible(state, approved, &mut events);
        assert(events.deep_view() =~= settles_approval(old(state).deep_view(), approved).events);
        Some(events)
    } else if same_text(method, "turn/completed") {
        Some(map_turn_completed(state, params))
    } else if same_text(method, "error") {
        if is_true(member(params, "willRetry")) {
            return Some(no_events());
        }
        let reason = within(member(params, "error"), "message");
        let reason = as_text_or(reason, "codex app-server error");
        let mut events = no_events();
        let ghost said = reason@;
        add_event(&mut events, task_failed_event(reason));
        assert(events.deep_view() =~= seq![failed(said)]);
        Some(events)
    } else {
        None
    }
}

fn observe_app_server_notification(
    state: &mut PaneRuntimeState,
    notification: AppServerNotification,
) -> (r: Option<Vec<AgentEvent>>)
    ensures
        match r {
            Some(events) => notified(old(state).deep_view(), notification.deep_view()) == Some(
                Step { pane: final(state).deep_view(), events: events.deep_view() },
            ),
            None => notified(old(state).deep_view(), notification.deep_view()) is None && *final(state) == *old(state),
        },
{
    match map_app_server_notification(state, &notification) {
        None => None,
        Some(mapped) => {
            state.app_server_signal_seen = true;
            let signature = Some(notification.signature);
            if same_optional_text(&state.last_app_server_signature, &signature) {
                return Some(no_events());
            }
            state.last_app_server_signature = signature;
            Some(mapped)
        },
    }
}

// ---------------------------------------------------------------------------
// Text fallback
// ---------------------------------------------------------------------------

/// The pane runs Codex, by its command (or, where it has none, the last one known) or by its
/// foreground process.
pub open spec fn runs_codex_now(sample: SampleView, known: Option<Seq<char>>) -> bool {
    let named = match sample.current_command {
        Some(command) => if trimmed(command).len() > 0 {
            Some(trimmed(command))
        } else {
            known
        },
        None => known,
    };
    ||| named is Some && codex_command(named->0)
    ||| sample.foreground_process_name is Some && codex_process(sample.foreground_process_name->0)
}

/// The pane names a command or a foreground process that is not Codex.
pub open spec fn runs_something_else(sample: SampleView) -> bool {
    ||| (sample.current_command matches Some(command) && trimmed(command).len() > 0
        && !codex_command(trimmed(command)))
    ||| (sample.foreground_process_name matches Some(name) && trimmed(name).len() > 0
        && !codex_process(trimmed(name)))
}

/// What output without app-server messages does. A prompt or a Codex context starts a task; while a
/// task is known, output shows that it runs, a prompt wants an approval and the prompt's absence
/// settles it; a task that was seen to be Codex ends when the pane runs something else.
pub open spec fn text_step(pane: PaneView, sample: SampleView) -> Step {
    let prompt = prompt_in(sample.tail_text);
    let codex = runs_codex_now(sample, pane.last_command);
    if prompt is None && !pane.fallback_active && !pane.approval_prompt_visible && !codex {
        unmoved(pane)
    } else if pane.fallback_active && pane.fallback_hard_context && prompt is None && !codex
        && runs_something_else(sample) {
        settles_and(
            PaneView { fallback_active: false, fallback_hard_context: false, ..pane },
            true,
            completed(),
        )
    } else {
        let now = PaneView {
            fallback_active: true,
            fallback_hard_context: codex || (pane.fallback_active && pane.fallback_hard_context),
            ..pane
        };
        let opening = if pane.fallback_active {
            Seq::empty()
        } else {
            seq![started(), output()]
        };
        if prompt is Some {
            let step = wants_approval(now, prompt);
            Step { pane: step.pane, events: opening + step.events }
        } else if pane.approval_prompt_visible {
            let step = settles_approval(now, true);
            Step { pane: step.pane, events: opening + step.events }
        } else if pane.fallback_active {
            Step { pane: now, events: seq![output()] }
        } else {
            Step { pane: now, events: opening }
        }
    }
}

/// What output does: an app-server message counts first, and once one has been understood text
/// counts no more.
pub open spec fn output_step(pane: PaneView, sample: SampleView) -> Step {
    let structured = match message_in(sample.tail_text) {
        Some(message) => notified(pane, message),
        None => None,
    };
    match structured {
        Some(step) => step,
        None => if pane.app_server_signal_seen {
            unmoved(pane)
        } else {
            text_step(pane, sample)
        },
    }
}

fn is_codex_context(sample: &AgentPaneOutputSample, known_command: &Option<String>) -> (r: bool)
    ensures
        r == runs_codex_now(sample.deep_view(), known_command.deep_view()),
{
    let mut named: Option<String> = copy_optional_text(known_command);
    match &sample.current_command {
        Some(command) => {
            let command = trim(command.as_str());
            if !is_empty(command.as_str()) {
                named = Some(command);
            }
        },
        None => {},
    }
    let by_command = match &named {
        Some(command) => is_codex_like_command(command.as_str()),
        None => false,
    };
    by_command || match &sample.foreground_process_name {
        Some(name) => is_codex_process_name(name.as_str()),
        None => false,
    }
}

fn has_explicit_non_codex_context(sample: &AgentPaneOutputSample) -> (r: bool)
    ensures
        r == runs_something_else(sample.deep_view()),
{
    let by_command = match &sample.current_command {
        Some(command) => {
            let command = trim(command.as_str());
            !is_empty(command.as_str()) && !is_codex_like_command(command.as_str())
        },
        None => false,
    };
    by_command || match &sample.foreground_process_name {
        Some(name) => {
            let name = trim(name.as_str());
            !is_empty(name.as_str()) && !is_codex_process_name(name.as_str())
        },
        None => false,
    }
}

fn observe_approval_prompt(state: &mut PaneRuntimeState, sample: &AgentPaneOutputSample) -> (r: Vec<
    AgentEvent,
>)
    ensures
        (Step { pane: final(state).deep_view(), events: r.deep_view() }) == text_step(
            old(state).deep_view(),
            sample.deep_view(),
        ),
{
    let was_active = state.fallback_active;
    let was_visible = state.approval_prompt_visible;
    let prompt = extract_approval_prompt(sample.tail_text.as_str());
    let codex_context = is_codex_context(sample, &state.last_command);
    if prompt.is_none() && !was_active && !was_visible && !codex_context {
        return no_events();
    }
    if was_active && state.fallback_hard_context && prompt.is_none() && !codex_context
        && has_explicit_non_codex_context(sample) {
        state.fallback_active = false;
        state.fallback_hard_context = false;
        return settle_and(state, true, task_completed_event());
    }
    let mut events = no_events();
    if !was_active {
        state.fallback_active = true;
        state.fallback_hard_context = codex_context;
        add_event(&mut events, task_started_event());
        add_event(&mut events, task_output_event());
        assert(events.deep_view() =~= seq![started(), output()]);
    } else if codex_context {
        state.fallback_hard_context = true;
    }
    let ghost opening = events.deep_view();
    if prompt.is_some() {
        let more = mark_approval_required(state, prompt);
        add_events(&mut events, more);
    } else if was_visible {
        mark_approval_resolved_if_visible(state, true, &mut events);
    } else if was_active {
        add_event(&mut events, task_output_event());
        assert(events.deep_view() =~= seq![output()]);
    }
    events
}

// ---------------------------------------------------------------------------
// Shell variables
// ---------------------------------------------------------------------------

/// What the start of a shell command does: everything known of the command before is over, and a
/// Codex command starts a task.
pub open spec fn command_step(pane: PaneView, command: Seq<char>) -> Step {
    let name = trimmed(command);
    if name.len() == 0 {
        unmoved(pane)
    } else {
        let codex = codex_command(name);
        Step {
            pane: PaneView {
                last_command: Some(name),
                command_generation: if pane.command_generation == u64::MAX {
                    u64::MAX
                } else {
                    (pane.command_generation + 1) as u64
                },
                last_app_server_signature: None,
                app_server_turn_active: false,
                app_server_signal_seen: false,
                fallback_active: codex,
                fallback_hard_context: codex,
                ..pane
            },
            events: if codex {
                seq![started(), output()]
            } else {
                Seq::empty()
            },
        }
    }
}

/// The variable is set and not blank.
pub open spec fn var_set(vars: Map<Seq<char>, Seq<char>>, name: Seq<char>) -> bool {
    vars.dom().contains(name) && trimmed(vars[name]).len() > 0
}

/// What the name of the running program does: none ends a task that text showed; one counts as a
/// command unless the shell reports its commands itself.
pub open spec fn program_step(
    pane: PaneView,
    program: Seq<char>,
    vars: Map<Seq<char>, Seq<char>>,
) -> Step {
    let name = trimmed(program);
    if name.len() == 0 {
        if pane.fallback_active {
            settles_and(
                PaneView {
                    fallback_active: false,
                    fallback_hard_context: false,
                    app_server_turn_active: false,
                    ..pane
                },
                true,
                completed(),
            )
        } else {
            unmoved(pane)
        }
    } else if var_set(vars, "kaku_last_cmd"@) {
        unmoved(PaneView { last_command: Some(name), ..pane })
    } else {
        command_step(pane, name)
    }
}

/// What identifies the end of one run of a command.
pub open spec fn exit_signature(generation: u64, command: Seq<char>, code: i32) -> Seq<char> {
    decimal_of(generation as nat) + seq!['\0'] + command + seq!['\0'] + signed_decimal_of(
        code as int,
    )
}

/// The command that an exit code belongs to.
pub open spec fn exited_command(pane: PaneView, vars: Map<Seq<char>, Seq<char>>) -> Option<
    Seq<char>,
> {
    if var_set(vars, "kaku_last_cmd"@) {
        Some(vars["kaku_last_cmd"@])
    } else {
        pane.last_command
    }
}

/// What an exit code does: it ends a task of Codex, once for each run of the command.
pub open spec fn exit_step(
    pane: PaneView,
    value: Seq<char>,
    vars: Map<Seq<char>, Seq<char>>,
) -> Step {
    match (i32_of(trimmed(value)), exited_command(pane, vars)) {
        (Some(code), Some(command)) => {
            let signature = exit_signature(pane.command_generation, command, code);
            if (!codex_command(command) && !pane.fallback_active) || pane.last_exit_signature
                == Some(signature) {
                unmoved(pane)
            } else {
                Step {
                    pane: PaneView {
                        last_exit_signature: Some(signature),
                        app_server_turn_active: false,
                        fallback_active: false,
                        fallback_hard_context: false,
                        ..pane
                    },
                    events: if code == 0 {
                        seq![completed()]
                    } else {
                        seq![failed("codex exited with status "@ + signed_decimal_of(code as int))]
                    },
                }
            }
        },
        _ => unmoved(pane),
    }
}

/// What setting a user variable does.
pub open spec fn variable_step(
    pane: PaneView,
    name: Seq<char>,
    value: Seq<char>,
    vars: Map<Seq<char>, Seq<char>>,
) -> Step {
    if name == "kaku_last_cmd"@ {
        command_step(pane, value)
    } else if name == "WEZTERM_PROG"@ {
        program_step(pane, value, vars)
    } else if name == "kaku_last_exit_code"@ {
        exit_step(pane, value, vars)
    } else {
        unmoved(pane)
    }
}

fn observe_last_cmd(state: &mut PaneRuntimeState, command: &str) -> (r: Vec<AgentEvent>)
    ensures
        (Step { pane: final(state).deep_view(), events: r.deep_view() }) == command_step(
            old(state).deep_view(),
            command@,
        ),
{
    let normalized = trim(command);
    if is_empty(normalized.as_str()) {
        return no_events();
    }
    let codex = is_codex_like_command(normalized.as_str());
    state.command_generation = state.command_generation.saturating_add(1);
    state.last_command = Some(normalized);
    state.last_app_server_signature = None;
    state.app_server_turn_active = false;
    state.app_server_signal_seen = false;
    state.fallback_active = codex;
    state.fallback_hard_context = codex;
    let mut events = no_events();
    if codex {
        add_event(&mut events, task_started_event());
        add_event(&mut events, task_output_event());
        assert(events.deep_view() =~= seq![started(), output()]);
    }
    events
}

/// Whether the variable is set and not blank.
pub fn is_var_set(vars: &UserVars, name: &str) -> (r: bool)
    ensures
        r == var_set(vars@, name@),
{
    match vars.get(name) {
        Some(value) => !is_blank(value),
        None => false,
    }
}

fn observe_wezterm_prog(state: &mut PaneRuntimeState, command: &str, user_vars: &UserVars) -> (r:
    Vec<AgentEvent>)
    ensures
        (Step { pane: final(state).deep_view(), events: r.deep_view() }) == program_step(
            old(state).deep_view(),
            command@,
            user_vars@,
        ),
{
    let normalized = trim(command);
    if is_empty(normalized.as_str()) {
        if !state.fallback_active {
            return no_events();
        }
        state.fallback_active = false;
        state.app_server_turn_active = false;
        state.fallback_hard_context = false;
        return settle_and(state, true, task_completed_event());
    }
    if is_var_set(user_vars, "kaku_last_cmd") {
        state.last_command = Some(normalized);
        return no_events();
    }
    observe_last_cmd(state, normalized.as_str())
}

fn exit_signature_text(generation: u64, command: &str, code: i32) -> (r: String)
    ensures
        r@ == exit_signature(generation, command@, code),
{
    let mut r = decimal(generation as u128);
    r.push('\0');
    r.append(command);
    r.push('\0');
    r.append(signed_decimal(code).as_str());
    proof {
        let g = decimal_of(generation as nat);
        assert(g.push('\0') =~= g + seq!['\0']);
        let head = g + seq!['\0'] + command@;
        assert(head.push('\0') =~= head + seq!['\0']);
    }
    r
}

fn observe_last_exit_code(
    state: &mut PaneRuntimeState,
    exit_code_value: &str,
    user_vars: &UserVars,
) -> (r: Vec<AgentEvent>)
    ensures
        (Step { pane: final(state).deep_view(), events: r.deep_view() }) == exit_step(
            old(state).deep_view(),
            exit_code_value@,
            user_vars@,
        ),
{
    let code: i32 = match parse_i32(trim(exit_code_value).as_str()) {
        Some(code) => code,
        None => {
            return no_events();
        },
    };
    let reported: Option<String> = if is_var_set(user_vars, "kaku_last_cmd") {
        match user_vars.get("kaku_last_cmd") {
            Some(command) => Some(command.to_owned()),
            None => None,
        }
    } else {
        copy_optional_text(&state.last_command)
    };
    let command = match reported {
        Some(command) => command,
        None => {
            return no_events();
        },
    };
    if !is_codex_like_command(command.as_str()) && !state.fallback_active {
        return no_events();
    }
    let signature = Some(
        exit_signature_text(state.command_generation, command.as_str(), code),
    );
    if same_optional_text(&state.last_exit_signature, &signature) {
        return no_events();
    }
    state.last_exit_signature = signature;
    state.app_server_turn_active = false;
    state.fallback_active = false;
    state.fallback_hard_context = false;
    let mut events = no_events();
    if code == 0 {
        add_event(&mut events, task_completed_event());
        assert(events.deep_view() =~= seq![completed()]);
    } else {
        let mut reason = "codex exited with status ".to_owned();
        reason.append(signed_decimal(code).as_str());
        let ghost said = reason@;
        add_event(&mut events, task_failed_event(reason));
        assert(events.deep_view() =~= seq![failed(said)]);
    }
    events
}

// ---------------------------------------------------------------------------
// The adapter
// ---------------------------------------------------------------------------

/// The adapter of Codex.
pub struct CodexAdapter {
    pane_state_by_key: StringHashMap<PaneRuntimeState>,
}

impl View for CodexAdapter {
    type V = Map<Seq<char>, PaneView>;

    closed spec fn view(&self) -> Map<Seq<char>, PaneView> {
        self.pane_state_by_key@.map_values(|state: PaneRuntimeState| state.deep_view())
    }
}

impl Default for CodexAdapter {
    fn default() -> (r: CodexAdapter)
        ensures
            r@ == Map::<Seq<char>, PaneView>::empty(),
    {
        let r = CodexAdapter { pane_state_by_key: StringHashMap::new() };
        assert(r@ =~= Map::<Seq<char>, PaneView>::empty());
        r
    }
}

/// What is known of a pane.
pub open spec fn pane_at(panes: Map<Seq<char>, PaneView>, key: Seq<char>) -> PaneView {
    if panes.dom().contains(key) {
        panes[key]
    } else {
        fresh_pane()
    }
}

/// The pane that a signal comes from.
pub open spec fn signalled_pane(signal: AgentSignal) -> Seq<char> {
    match signal {
        AgentSignal::UserVar { pane_key, .. } => pane_key,
        AgentSignal::PaneOutput { pane_key, .. } => pane_key,
    }
}

/// What a signal does to its pane.
pub open spec fn signal_step(pane: PaneView, signal: AgentSignal) -> Step {
    match signal {
        AgentSignal::UserVar { pane_key, name, value, user_vars } => variable_step(
            pane,
            name,
            value,
            user_vars,
        ),
        AgentSignal::PaneOutput { pane_key, sample } => output_step(pane, sample),
    }
}

/// The panes after a signal.
pub open spec fn panes_after(
    panes: Map<Seq<char>, PaneView>,
    signal: AgentSignal,
) -> Map<Seq<char>, PaneView> {
    let key = signalled_pane(signal);
    panes.insert(key, signal_step(pane_at(panes, key), signal).pane)
}

/// The events of the last of these signals, seen one after the other.
pub open spec fn events_after(
    panes: Map<Seq<char>, PaneView>,
    signals: Seq<AgentSignal>,
) -> Seq<AgentEventView>
    decreases signals.len(),
{
    if signals.len() == 0 {
        Seq::empty()
    } else if signals.len() == 1 {
        signal_step(pane_at(panes, signalled_pane(signals[0])), signals[0]).events
    } else {
        events_after(panes_after(panes, signals[0]), signals.skip(1))
    }
}

impl CodexAdapter {
    fn state_of(&self, pane_key: &str) -> (r: PaneRuntimeState)
        ensures
            r.deep_view() == pane_at(self@, pane_key@),
    {
        match self.pane_state_by_key.get(pane_key) {
            Some(state) => state.clone(),
            None => PaneRuntimeState::default(),
        }
    }

    fn remember(&mut self, pane_key: &str, state: PaneRuntimeState)
        ensures
            final(self)@ == old(self)@.insert(pane_key@, state.deep_view()),
    {
        let ghost before = self@;
        self.pane_state_by_key.insert(pane_key.to_owned(), state);
        assert(self@ =~= before.insert(pane_key@, state.deep_view()));
    }
}

/// Seeing a signal first and later ones after it is seeing them all in a row.
proof fn lemma_events_after(
    panes: Map<Seq<char>, PaneView>,
    signal: AgentSignal,
    later: Seq<AgentSignal>,
)
    requires
        later.len() > 0,
    ensures
        events_after(panes_after(panes, signal), later) == events_after(
            panes,
            seq![signal] + later,
        ),
{
    assert((seq![signal] + later).skip(1) =~= later);
}

impl AgentAdapter for CodexAdapter {
    open spec fn provider_name(&self) -> Seq<char> {
        "codex"@
    }

    open spec fn events_for(&self, signals: Seq<AgentSignal>) -> Seq<AgentEventView> {
        events_after(self@, signals)
    }

    fn provider(&self) -> (r: &'static str) {
        "codex"
    }

    fn observe_user_var(
        &mut self,
        pane_key: &str,
        name: &str,
        value: &str,
        user_vars: &UserVars,
    ) -> (r: Vec<AgentEvent>)
        ensures
            ({
                let step = variable_step(
                    pane_at(old(self)@, pane_key@),
                    name@,
                    value@,
                    user_vars@,
                );
                &&& r.deep_view() == step.events
                &&& final(self)@ == old(self)@.insert(pane_key@, step.pane)
            }),
    {
        let ghost panes = self@;
        let ghost signal = AgentSignal::UserVar {
            pane_key: pane_key@,
            name: name@,
            value: value@,
            user_vars: user_vars@,
        };
        let mut state = self.state_of(pane_key);
        let events = if same_text(name, "kaku_last_cmd") {
            observe_last_cmd(&mut state, value)
        } else if same_text(name, "WEZTERM_PROG") {
            observe_wezterm_prog(&mut state, value, user_vars)
        } else if same_text(name, "kaku_last_exit_code") {
            observe_last_exit_code(&mut state, value, user_vars)
        } else {
            no_events()
        };
        self.remember(pane_key, state);
        proof {
            assert forall|later: Seq<AgentSignal>| later.len() > 0 implies #[trigger] events_after(
                self@,
                later,
            ) == events_after(panes, seq![signal] + later) by {
                lemma_events_after(panes, signal, later);
            }
        }
        events
    }

    fn observe_pane_output(
        &mut self,
        pane_key: &str,
        sample: &AgentPaneOutputSample,
    ) -> (r: Vec<AgentEvent>)
        ensures
            ({
                let step = output_step(pane_at(old(self)@, pane_key@), sample.deep_view());
                &&& r.deep_view() == step.events
                &&& final(self)@ == old(self)@.insert(pane_key@, step.pane)
            }),
    {
        let ghost panes = self@;
        let ghost signal = AgentSignal::PaneOutput {
            pane_key: pane_key@,
            sample: sample.deep_view(),
        };
        let mut state = self.state_of(pane_key);
        let structured = match extract_app_server_notification(sample.tail_text.as_str()) {
            Some(notification) => observe_app_server_notification(&mut state, notification),
            None => None,
        };
        let events = match structured {
            Some(events) => events,
            None => if state.app_server_signal_seen {
                no_events()
            } else {
                observe_approval_prompt(&mut state, sample)
            },
        };
        self.remember(pane_key, state);
        proof {
            assert forall|later: Seq<AgentSignal>| later.len() > 0 implies #[trigger] events_after(
                self@,
                later,
            ) == events_after(panes, seq![signal] + later) by {
                lemma_events_after(panes, signal, later);
            }
        }
        events
    }
}

} // verus!
