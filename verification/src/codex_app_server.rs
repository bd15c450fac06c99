//! The channel to a Codex app server: which messages are answered, and which become agent events.
use std::collections::HashMap;
use vstd::prelude::*;

use crate::agent_status::adapters::codex::{
    completed, failed, is_var_set, output, required, resolved, started, var_set,
};
use crate::agent_status::adapters::UserVars;
use crate::agent_status::events::{AgentEvent, AgentEventView};
use crate::json::{
    as_text, as_text_or, as_text_or_empty, first_field, integer, integer_number, into_member, is_true, json_text,
    member, member_of, parse, parsed_json, render, seen, string, text_in, text_or, text_or_empty,
    texts, texts_in, truth_in, within, within_of, Json, JsonView,
};
use crate::text::{
    contains, contains_any, contains_any_of, contains_text, is_empty, joined, lowered, same_text,
    split_whitespace, starts_with, to_ascii_lowercase, trim, trimmed, words_of, begins,
};

verus! {

/// How long a connection attempt may take, in milliseconds.
pub const CONNECT_TIMEOUT_MS: u64 = 8000;

/// How long to wait before connecting again, in milliseconds.
pub const RECONNECT_DELAY_MS: u64 = 2000;

// ---------------------------------------------------------------------------
// Notifications
// ---------------------------------------------------------------------------

/// Some flag speaks of an approval.
pub open spec fn some_flag_approval(flags: Seq<Seq<char>>) -> bool {
    exists|i: int| 0 <= i < flags.len() && contains(lowered(#[trigger] flags[i]), "approval"@)
}

/// A thread status that waits for an approval, by its type, one of its flags or its reason.
pub open spec fn waits_on_approval(status: Option<JsonView>) -> bool {
    status is Some && {
        ||| contains(lowered(text_or_empty(within_of(status, "type"@))), "approval"@)
        ||| some_flag_approval(texts_in(within_of(status, "activeFlags"@)))
        ||| text_in(within_of(status, "waitReason"@)) matches Some(reason) && contains(
            lowered(reason),
            "approval"@,
        )
    }
}

/// Words by which a status type says that the user is asked for input.
pub open spec fn input_type_words() -> Seq<&'static str> {
    seq![
        "waitingoninput",
        "waitingonuserinput",
        "waiting_for_input",
        "waiting_for_user_input",
        "awaitinginput",
        "awaitinguserinput",
        "userinput",
    ]
}

/// Words by which a flag says that the user is asked for input.
pub open spec fn input_flag_words() -> Seq<&'static str> {
    seq![
        "waitingoninput",
        "waitingonuserinput",
        "waiting_for_input",
        "waiting_for_user_input",
        "awaitinginput",
        "awaitinguserinput",
        "userinput",
        "awaitinguser",
        "waitingforuser",
    ]
}

/// Words by which a reason says that the user is asked for input.
pub open spec fn input_reason_words() -> Seq<&'static str> {
    seq!["input", "user", "respond", "reply"]
}

/// The text speaks of input by the user, and not of an approval.
pub open spec fn speaks_of_input(text: Seq<char>, words: Seq<&'static str>) -> bool {
    !contains(lowered(text), "approval"@) && contains_any(lowered(text), words)
}

/// Some flag speaks of input by the user.
pub open spec fn some_flag_input(flags: Seq<Seq<char>>) -> bool {
    exists|i: int| 0 <= i < flags.len() && speaks_of_input(#[trigger] flags[i], input_flag_words())
}

/// A thread status that waits for the user's input, by its type, one of its flags or its reason.
pub open spec fn waits_on_input(status: Option<JsonView>) -> bool {
    status is Some && {
        ||| contains_any(lowered(text_or_empty(within_of(status, "type"@))), input_type_words())
        ||| some_flag_input(texts_in(within_of(status, "activeFlags"@)))
        ||| text_in(within_of(status, "waitReason"@)) matches Some(reason) && speaks_of_input(
            reason,
            input_reason_words(),
        )
    }
}

/// The first flag that is `waitingOnApproval` in any ASCII letter case, and else that word.
pub open spec fn approval_flag(flags: Seq<Seq<char>>) -> Seq<char>
    decreases flags.len(),
{
    if flags.len() == 0 {
        "waitingOnApproval"@
    } else if lowered(flags[0]) == lowered("waitingOnApproval"@) {
        flags[0]
    } else {
        approval_flag(flags.skip(1))
    }
}

/// The events of a change of thread status; `None` for a status that says nothing.
pub open spec fn thread_status_events(params: JsonView) -> Option<Seq<AgentEventView>> {
    let status = member_of(params, "status"@);
    let kind = text_or_empty(within_of(status, "type"@));
    if kind == "active"@ {
        if waits_on_approval(status) {
            Some(
                seq![
                    required(Some(approval_flag(texts_in(within_of(status, "activeFlags"@))))),
                ],
            )
        } else {
            Some(seq![output()])
        }
    } else if kind == "idle"@ {
        Some(seq![completed()])
    } else if kind == "systemError"@ {
        Some(seq![failed("codex app-server reported systemError"@)])
    } else {
        None
    }
}

/// The events of the end of a turn.
pub open spec fn turn_completed_events(params: JsonView) -> Seq<AgentEventView> {
    let turn = member_of(params, "turn"@);
    let status = text_or_empty(within_of(turn, "status"@));
    if status == "completed"@ {
        seq![completed()]
    } else if status == "failed"@ {
        let message = within_of(within_of(turn, "error"@), "message"@);
        seq![failed(text_or(message, "codex turn failed"@))]
    } else if status == "interrupted"@ {
        seq![failed("codex turn interrupted"@)]
    } else {
        Seq::empty()
    }
}

/// The events of a notification; `None` for one that says nothing. Absent parameters count as null.
pub open spec fn notification_events(method: Seq<char>, params: Option<JsonView>) -> Option<
    Seq<AgentEventView>,
> {
    let params = match params {
        Some(value) => value,
        None => JsonView::Null,
    };
    if method == "turn/started"@ {
        Some(seq![started()])
    } else if method == "item/started"@ || method == "item/completed"@ {
        Some(seq![output()])
    } else if method == "thread/status/changed"@ {
        thread_status_events(params)
    } else if method == "item/autoApprovalReview/started"@ {
        let rationale = within_of(member_of(params, "review"@), "rationale"@);
        Some(seq![required(Some(text_or(rationale, "autoApprovalReview"@)))])
    } else if method == "item/autoApprovalReview/completed"@ {
        let status = text_in(within_of(member_of(params, "review"@), "status"@));
        Some(
            seq![
                resolved(status is None || status->0 == "approved"@ || status->0 == "inProgress"@),
            ],
        )
    } else if method == "turn/completed"@ {
        Some(turn_completed_events(params))
    } else if method == "error"@ {
        if truth_in(member_of(params, "willRetry"@)) {
            Some(Seq::empty())
        } else {
            let reason = within_of(member_of(params, "error"@), "message"@);
            Some(seq![failed(text_or(reason, "codex app-server error"@))])
        }
    } else if method == "serverRequest/resolved"@ {
        Some(seq![resolved(true)])
    } else {
        None
    }
}

fn one(event: AgentEvent) -> (r: Vec<AgentEvent>)
    ensures
        r.deep_view() == seq![event.deep_view()],
{
    let mut r: Vec<AgentEvent> = Vec::new();
    r.push(event);
    assert(r.deep_view() =~= seq![event.deep_view()]);
    r
}

fn started_event() -> (r: Vec<AgentEvent>)
    ensures
        r.deep_view() == seq![started()],
{
    one(AgentEvent::TaskStarted { provider: "codex".to_owned() })
}

fn output_event() -> (r: Vec<AgentEvent>)
    ensures
        r.deep_view() == seq![output()],
{
    one(AgentEvent::TaskOutput { provider: "codex".to_owned() })
}

fn completed_event() -> (r: Vec<AgentEvent>)
    ensures
        r.deep_view() == seq![completed()],
{
    one(AgentEvent::TaskCompleted { provider: "codex".to_owned() })
}

fn failed_event(reason: String) -> (r: Vec<AgentEvent>)
    ensures
        r.deep_view() == seq![failed(reason@)],
{
    one(AgentEvent::TaskFailed { provider: "codex".to_owned(), reason: Some(reason) })
}

fn required_event(detail: String) -> (r: Vec<AgentEvent>)
    ensures
        r.deep_view() == seq![required(Some(detail@))],
{
    one(AgentEvent::ApprovalRequired { provider: "codex".to_owned(), detail: Some(detail) })
}

fn resolved_event(approved: bool) -> (r: Vec<AgentEvent>)
    ensures
        r.deep_view() == seq![resolved(approved)],
{
    one(AgentEvent::ApprovalResolved { provider: "codex".to_owned(), approved })
}

fn mentions_approval(text: &str) -> (r: bool)
    ensures
        r == contains(lowered(text@), "approval"@),
{
    contains_text(to_ascii_lowercase(text).as_str(), "approval")
}

/// Whether a thread status waits for an approval.
pub fn is_waiting_on_approval_status(status: Option<&Json>) -> (r: bool)
    ensures
        r == waits_on_approval(seen(status)),
{
    if status.is_none() {
        return false;
    }
    if mentions_approval(as_text_or_empty(within(status, "type")).as_str()) {
        return true;
    }
    let flags = texts(within(status, "activeFlags"));
    let ghost all = flags.deep_view();
    let mut i: usize = 0;
    while i < flags.len()
        invariant
            i <= flags@.len(),
            all == flags.deep_view(),
            status is Some,
            all == texts_in(within_of(seen(status), "activeFlags"@)),
            forall|j: int| 0 <= j < i ==> !contains(lowered(#[trigger] all[j]), "approval"@),
        decreases flags@.len() - i,
    {
        assert(all[i as int] == flags@[i as int]@);
        if mentions_approval(flags[i].as_str()) {
            assert(some_flag_approval(all));
            return true;
        }
        i = i + 1;
    }
    match as_text(within(status, "waitReason")) {
        Some(reason) => mentions_approval(reason),
        None => false,
    }
}

fn mentions_input(text: &str, words: &Vec<&'static str>) -> (r: bool)
    ensures
        r == speaks_of_input(text@, words@),
{
    let lower = to_ascii_lowercase(text);
    !contains_text(lower.as_str(), "approval") && contains_any_of(lower.as_str(), words)
}

/// Whether a thread status waits for the user's input.
pub fn is_waiting_on_user_input_status(status: Option<&Json>) -> (r: bool)
    ensures
        r == waits_on_input(seen(status)),
{
    if status.is_none() {
        return false;
    }
    let kind = to_ascii_lowercase(as_text_or_empty(within(status, "type")).as_str());
    let type_words: Vec<&'static str> = vec![
        "waitingoninput",
        "waitingonuserinput",
        "waiting_for_input",
        "waiting_for_user_input",
        "awaitinginput",
        "awaitinguserinput",
        "userinput",
    ];
    assert(type_words@ =~= input_type_words());
    if contains_any_of(kind.as_str(), &type_words) {
        return true;
    }
    let flag_words: Vec<&'static str> = vec![
        "waitingoninput",
        "waitingonuserinput",
        "waiting_for_input",
        "waiting_for_user_input",
        "awaitinginput",
        "awaitinguserinput",
        "userinput",
        "awaitinguser",
        "waitingforuser",
    ];
    assert(flag_words@ =~= input_flag_words());
    let flags = texts(within(status, "activeFlags"));
    let ghost all = flags.deep_view();
    let mut i: usize = 0;
    while i < flags.len()
        invariant
            i <= flags@.len(),
            all == flags.deep_view(),
            status is Some,
            all == texts_in(within_of(seen(status), "activeFlags"@)),
            flag_words@ == input_flag_words(),
            forall|j: int| 0 <= j < i ==> !speaks_of_input(#[trigger] all[j], input_flag_words()),
        decreases flags@.len() - i,
    {
        assert(all[i as int] == flags@[i as int]@);
        if mentions_input(flags[i].as_str(), &flag_words) {
            assert(some_flag_input(all));
            return true;
        }
        i = i + 1;
    }
    let reason_words: Vec<&'static str> = vec!["input", "user", "respond", "reply"];
    assert(reason_words@ =~= input_reason_words());
    match as_text(within(status, "waitReason")) {
        Some(reason) => mentions_input(reason, &reason_words),
        None => false,
    }
}

fn first_approval_flag(flags: &Vec<String>) -> (r: String)
    ensures
        r@ == approval_flag(flags.deep_view()),
{
    let wanted = to_ascii_lowercase("waitingOnApproval");
    let ghost all = flags.deep_view();
    let mut i: usize = 0;
    assert(all.skip(0) =~= all);
    while i < flags.len()
        invariant
            i <= flags@.len(),
            all == flags.deep_view(),
            wanted@ == lowered("waitingOnApproval"@),
            approval_flag(all) == approval_flag(all.skip(i as int)),
        decreases flags@.len() - i,
    {
        assert(all.skip(i as int)[0] == flags@[i as int]@);
        assert(all.skip(i as int).skip(1) =~= all.skip(i + 1));
        if same_text(to_ascii_lowercase(flags[i].as_str()).as_str(), wanted.as_str()) {
            return flags[i].clone();
        }
        i = i + 1;
    }
    "waitingOnApproval".to_owned()
}

/// Optional events over sequences.
pub open spec fn events_view(events: Option<Vec<AgentEvent>>) -> Option<Seq<AgentEventView>> {
    match events {
        Some(list) => Some(list.deep_view()),
        None => None,
    }
}

/// The events of a change of thread status.
pub fn map_thread_status_changed(params: &Json) -> (r: Option<Vec<AgentEvent>>)
    ensures
        events_view(r) == thread_status_events(params.content()),
{
    let status = member(params, "status");
    let kind = as_text_or_empty(within(status, "type"));
    let kind = kind.as_str();
    if same_text(kind, "active") {
        if is_waiting_on_approval_status(status) {
            let flags = texts(within(status, "activeFlags"));
            return Some(required_event(first_approval_flag(&flags)));
        }
        Some(output_event())
    } else if same_text(kind, "idle") {
        Some(completed_event())
    } else if same_text(kind, "systemError") {
        Some(failed_event("codex app-server reported systemError".to_owned()))
    } else {
        None
    }
}

/// The events of the end of a turn.
pub fn map_turn_completed(params: &Json) -> (r: Vec<AgentEvent>)
    ensures
        r.deep_view() == turn_completed_events(params.content()),
{
    let turn = member(params, "turn");
    let status = as_text_or_empty(within(turn, "status"));
    let status = status.as_str();
    if same_text(status, "completed") {
        completed_event()
    } else if same_text(status, "failed") {
        let message = within(within(turn, "error"), "message");
        failed_event(as_text_or(message, "codex turn failed"))
    } else if same_text(status, "interrupted") {
        failed_event("codex turn interrupted".to_owned())
    } else {
        let none: Vec<AgentEvent> = Vec::new();
        assert(none.deep_view() =~= Seq::<AgentEventView>::empty());
        none
    }
}

/// The events of a notification.
pub fn map_app_server_notification(method: &str, params: Option<&Json>) -> (r: Option<
    Vec<AgentEvent>,
>)
    ensures
        events_view(r) == notification_events(method@, seen(params)),
{
    let null = Json::Null;
    let params = match params {
        Some(value) => value,
        None => &null,
    };
    if same_text(method, "turn/started") {
        Some(started_event())
    } else if same_text(method, "item/started") || same_text(method, "item/completed") {
        Some(output_event())
    } else if same_text(method, "thread/status/changed") {
        map_thread_status_changed(params)
    } else if same_text(method, "item/autoApprovalReview/started") {
        let rationale = within(member(params, "review"), "rationale");
        Some(required_event(as_text_or(rationale, "autoApprovalReview")))
    } else if same_text(method, "item/autoApprovalReview/completed") {
        let approved = match as_text(within(member(params, "review"), "status")) {
            Some(status) => same_text(status, "approved") || same_text(status, "inProgress"),
            None => true,
        };
        Some(resolved_event(approved))
    } else if same_text(method, "turn/completed") {
        Some(map_turn_completed(params))
    } else if same_text(method, "error") {
        if is_true(member(params, "willRetry")) {
            let none: Vec<AgentEvent> = Vec::new();
            assert(none.deep_view() =~= Seq::<AgentEventView>::empty());
            return Some(none);
        }
        let reason = within(member(params, "error"), "message");
        Some(failed_event(as_text_or(reason, "codex app-server error")))
    } else if same_text(method, "serverRequest/resolved") {
        Some(resolved_event(true))
    } else {
        None
    }
}

/// The thread that parameters speak of: `threadId`, or else `thread.id`, or else
/// `status.threadId`, trimmed; `None` where the first that is a text is blank.
pub open spec fn thread_id_in(params: Option<JsonView>) -> Option<Seq<char>> {
    let direct = text_in(within_of(params, "threadId"@));
    let nested = text_in(within_of(within_of(params, "thread"@), "id"@));
    let in_status = text_in(within_of(within_of(params, "status"@), "threadId"@));
    let found = if direct is Some {
        direct
    } else if nested is Some {
        nested
    } else {
        in_status
    };
    match found {
        Some(id) => if trimmed(id).len() > 0 {
            Some(trimmed(id))
        } else {
            None
        },
        None => None,
    }
}

/// The thread that parameters speak of.
pub fn extract_thread_id(params: Option<&Json>) -> (r: Option<String>)
    ensures
        r.deep_view() == thread_id_in(seen(params)),
{
    let direct = as_text(within(params, "threadId"));
    let nested = as_text(within(within(params, "thread"), "id"));
    let in_status = as_text(within(within(params, "status"), "threadId"));
    let found = if direct.is_some() {
        direct
    } else if nested.is_some() {
        nested
    } else {
        in_status
    };
    match found {
        Some(id) => {
            let id = trim(id);
            if is_empty(id.as_str()) {
                None
            } else {
                Some(id)
            }
        },
        None => None,
    }
}

// ---------------------------------------------------------------------------
// Requests and answers
// ---------------------------------------------------------------------------

/// An object with one field.
pub open spec fn one_field(name: Seq<char>, value: JsonView) -> JsonView {
    JsonView::Object(seq![(name, value)])
}

/// The answer to a request of the server: approvals are declined, questions go unanswered, tool
/// calls are refused and anything else is answered with an empty object.
pub open spec fn answer_to(method: Seq<char>) -> JsonView {
    if method == "item/commandExecution/requestApproval"@ || method
        == "item/fileChange/requestApproval"@ || method == "item/permissions/requestApproval"@
        || method == "applyPatchApproval"@ || method == "execCommandApproval"@ {
        one_field("decision"@, JsonView::Text("cancel"@))
    } else if method == "item/tool/requestUserInput"@ {
        one_field("answers"@, JsonView::Array(Seq::empty()))
    } else if method == "mcpServer/elicitation/request"@ {
        one_field("response"@, JsonView::Null)
    } else if method == "item/tool/call"@ {
        one_field("error"@, JsonView::Text("kaku-gui does not proxy dynamic tool calls"@))
    } else {
        JsonView::Object(Seq::empty())
    }
}

fn object_of(name: &str, value: Json) -> (r: Json)
    ensures
        r.content() == one_field(name@, value.content()),
{
    let mut fields: Vec<(String, Json)> = Vec::new();
    fields.push((name.to_owned(), value));
    let r = Json::Object(fields);
    assert(r.content()->Object_0 =~= seq![(name@, value.content())]);
    r
}

fn pair_object(first: &str, one: Json, second: &str, two: Json) -> (r: Json)
    ensures
        r.content() == JsonView::Object(
            seq![(first@, one.content()), (second@, two.content())],
        ),
{
    let mut fields: Vec<(String, Json)> = Vec::new();
    fields.push((first.to_owned(), one));
    fields.push((second.to_owned(), two));
    let r = Json::Object(fields);
    assert(r.content()->Object_0 =~= seq![(first@, one.content()), (second@, two.content())]);
    r
}

/// The answer to a request of the server.
pub fn handle_server_request(method: &str) -> (r: Json)
    ensures
        r.content() == answer_to(method@),
{
    if same_text(method, "item/commandExecution/requestApproval") || same_text(
        method,
        "item/fileChange/requestApproval",
    ) || same_text(method, "item/permissions/requestApproval") || same_text(
        method,
        "applyPatchApproval",
    ) || same_text(method, "execCommandApproval") {
        object_of("decision", string("cancel"))
    } else if same_text(method, "item/tool/requestUserInput") {
        let none = Json::Array(Vec::new());
        assert(none.content()->Array_0 =~= Seq::<JsonView>::empty());
        object_of("answers", none)
    } else if same_text(method, "mcpServer/elicitation/request") {
        object_of("response", Json::Null)
    } else if same_text(method, "item/tool/call") {
        object_of("error", string("kaku-gui does not proxy dynamic tool calls"))
    } else {
        let empty = Json::Object(Vec::new());
        assert(empty.content()->Object_0 =~= Seq::<(Seq<char>, JsonView)>::empty());
        empty
    }
}

/// Takes the next request id; the last one is given out again and again.
pub fn next_request_id(id: &mut u64) -> (r: u64)
    ensures
        r == *old(id),
        *final(id) == if *old(id) == u64::MAX {
            u64::MAX
        } else {
            (*old(id) + 1) as u64
        },
{
    let current: u64 = *id;
    *id = current.saturating_add(1);
    current
}

/// The request that opens a session.
pub open spec fn initialize_request(id: u64, version: Seq<char>) -> JsonView {
    let client = JsonView::Object(
        seq![("name"@, JsonView::Text("kaku-gui"@)), ("version"@, JsonView::Text(version))],
    );
    let params = JsonView::Object(
        seq![("clientInfo"@, client), ("capabilities"@, JsonView::Object(Seq::empty()))],
    );
    JsonView::Object(
        seq![
            ("id"@, JsonView::Number(integer_number(id))),
            ("method"@, JsonView::Text("initialize"@)),
            ("params"@, params),
        ],
    )
}

/// The text of the request that opens a session.
pub fn initialize_payload(id: u64, version: &str) -> (r: String)
    ensures
        r@ == json_text(initialize_request(id, version@)),
{
    let client = pair_object("name", string("kaku-gui"), "version", string(version));
    let none = Json::Object(Vec::new());
    assert(none.content()->Object_0 =~= Seq::<(Seq<char>, JsonView)>::empty());
    let params = pair_object("clientInfo", client, "capabilities", none);
    let ghost inner = params.content();
    let mut fields: Vec<(String, Json)> = Vec::new();
    fields.push(("id".to_owned(), integer(id)));
    fields.push(("method".to_owned(), string("initialize")));
    fields.push(("params".to_owned(), params));
    let request = Json::Object(fields);
    assert(request.content()->Object_0 =~= initialize_request(id, version@)->Object_0);
    render(request)
}

/// The text of the notification that follows the opening request.
pub fn initialized_payload() -> (r: String)
    ensures
        r@ == json_text(one_field("method"@, JsonView::Text("initialized"@))),
{
    render(object_of("method", string("initialized")))
}

/// The value of the authorization header for a token.
pub fn bearer_header(token: &str) -> (r: String)
    ensures
        r@ == "Bearer "@ + token@,
{
    joined("Bearer ", token)
}

/// What `url::Url::parse` followed by `as_str` makes of a text; `None` where it is no URL.
pub uninterp spec fn normalized_url(text: Seq<char>) -> Option<Seq<char>>;

/// `url::Url::parse`, and the parsed URL's `as_str`. What it accepts and how it writes it is a
/// function of the text and is not stated further.
#[verifier::external_body]
fn parse_url(text: &str) -> (r: Option<String>)
    ensures
        r.deep_view() == normalized_url(text@),
{
    url::Url::parse(text).ok().map(|parsed| parsed.as_str().to_owned())
}

/// The address to connect to for a URL, or what is wrong with it.
pub fn connect_address(ws_url: &str) -> (r: Result<String, String>)
    ensures
        match r {
            Ok(address) => normalized_url(ws_url@) == Some(address@),
            Err(message) => normalized_url(ws_url@) is None && message@ == "invalid ws url: "@
                + ws_url@,
        },
{
    match parse_url(ws_url) {
        Some(address) => Ok(address),
        None => Err(joined("invalid ws url: ", ws_url)),
    }
}

// ---------------------------------------------------------------------------
// The session
// ---------------------------------------------------------------------------

/// A message as it comes in.
#[derive(Debug)]
pub enum Incoming {
    Text(String),
    Binary,
    Ping,
    Pong,
    Frame,
    Close,
    End,
}

/// What to do about an incoming message.
#[derive(Debug, PartialEq)]
pub enum Reaction {
    /// Go on with the next message.
    Ignore,
    /// Send the ping's payload back.
    AnswerPing,
    /// Send this text.
    Send(String),
    /// Report these events and this thread.
    Report { events: Vec<AgentEvent>, thread_id: Option<String> },
    /// The session is over.
    Finish,
}

/// A [`Reaction`] over sequences.
pub enum ReactionView {
    Ignore,
    AnswerPing,
    Send(Seq<char>),
    Report { events: Seq<AgentEventView>, thread_id: Option<Seq<char>> },
    Finish,
}

impl DeepView for Reaction {
    type V = ReactionView;

    open spec fn deep_view(&self) -> ReactionView {
        match self {
            Reaction::Ignore => ReactionView::Ignore,
            Reaction::AnswerPing => ReactionView::AnswerPing,
            Reaction::Send(text) => ReactionView::Send(text@),
            Reaction::Report { events, thread_id } => ReactionView::Report {
                events: events.deep_view(),
                thread_id: thread_id.deep_view(),
            },
            Reaction::Finish => ReactionView::Finish,
        }
    }
}

/// What to do about a JSON message. One with an id is a request, answered under its id where it
/// has a method; of the others, those with a method are notifications and are reported where they
/// say something.
pub open spec fn reaction_to(payload: JsonView) -> ReactionView {
    let method = text_in(member_of(payload, "method"@));
    match member_of(payload, "id"@) {
        Some(id) => match method {
            Some(name) => ReactionView::Send(
                json_text(JsonView::Object(seq![("id"@, id), ("result"@, answer_to(name))])),
            ),
            None => ReactionView::Ignore,
        },
        None => match method {
            Some(name) => {
                let params = member_of(payload, "params"@);
                match notification_events(name, params) {
                    Some(events) => if events.len() == 0 && thread_id_in(params) is None {
                        ReactionView::Ignore
                    } else {
                        ReactionView::Report { events, thread_id: thread_id_in(params) }
                    },
                    None => ReactionView::Ignore,
                }
            },
            None => ReactionView::Ignore,
        },
    }
}

/// What to do about a text message; a text that is no JSON is passed over.
pub open spec fn text_reaction(text: Seq<char>) -> ReactionView {
    match parsed_json(text) {
        Some(payload) => reaction_to(payload),
        None => ReactionView::Ignore,
    }
}

/// What to do about an incoming message.
pub open spec fn incoming_reaction(message: Incoming) -> ReactionView {
    match message {
        Incoming::Text(text) => text_reaction(text@),
        Incoming::Ping => ReactionView::AnswerPing,
        Incoming::Close => ReactionView::Finish,
        Incoming::End => ReactionView::Finish,
        _ => ReactionView::Ignore,
    }
}

/// What to do about a JSON message.
pub fn react_to_payload(payload: Json) -> (r: Reaction)
    ensures
        r.deep_view() == reaction_to(payload.content()),
{
    let method = match as_text(member(&payload, "method")) {
        Some(name) => Some(name.to_owned()),
        None => None,
    };
    if member(&payload, "id").is_some() {
        match method {
            Some(name) => {
                let answer = handle_server_request(name.as_str());
                match into_member(payload, "id") {
                    Some(id) => Reaction::Send(render(pair_object("id", id, "result", answer))),
                    None => Reaction::Ignore,
                }
            },
            None => Reaction::Ignore,
        }
    } else {
        match method {
            Some(name) => {
                let params = member(&payload, "params");
                let thread_id = extract_thread_id(params);
                match map_app_server_notification(name.as_str(), params) {
                    Some(events) => {
                        assert(events.deep_view().len() == events@.len());
                        if events.len() == 0 && thread_id.is_none() {
                            Reaction::Ignore
                        } else {
                            Reaction::Report { events, thread_id }
                        }
                    },
                    None => Reaction::Ignore,
                }
            },
            None => Reaction::Ignore,
        }
    }
}

/// What to do about an incoming message.
pub fn react_to(message: Incoming) -> (r: Reaction)
    ensures
        r.deep_view() == incoming_reaction(message),
{
    match message {
        Incoming::Text(text) => match parse(text.as_str()) {
            Some(payload) => react_to_payload(payload),
            None => Reaction::Ignore,
        },
        Incoming::Ping => Reaction::AnswerPing,
        Incoming::Close => Reaction::Finish,
        Incoming::End => Reaction::Finish,
        Incoming::Binary => Reaction::Ignore,
        Incoming::Pong => Reaction::Ignore,
        Incoming::Frame => Reaction::Ignore,
    }
}

/// After a session: connect again after a pause exactly where it failed and the channel was not
/// stopped.
pub fn reconnect_after(failed: bool, stopped: bool) -> (r: Option<u64>)
    ensures
        r == if failed && !stopped {
            Some(RECONNECT_DELAY_MS)
        } else {
            None
        },
{
    if failed && !stopped {
        Some(RECONNECT_DELAY_MS)
    } else {
        None
    }
}

// ---------------------------------------------------------------------------
// Channels
// ---------------------------------------------------------------------------

/// What a user variable asks of a pane's channel.
#[derive(Debug, PartialEq, Eq)]
pub enum ManagedStart {
    /// Nothing; the signal is for others.
    Pass,
    /// Stop the channel; the signal is for others too.
    StopAndPass,
    /// Stop the channel.
    Stop,
    /// Open a channel to this address.
    Start { url: String, token: Option<String> },
}

/// A [`ManagedStart`] over sequences.
pub enum ManagedStartView {
    Pass,
    StopAndPass,
    Stop,
    Start { url: Seq<char>, token: Option<Seq<char>> },
}

impl DeepView for ManagedStart {
    type V = ManagedStartView;

    open spec fn deep_view(&self) -> ManagedStartView {
        match self {
            ManagedStart::Pass => ManagedStartView::Pass,
            ManagedStart::StopAndPass => ManagedStartView::StopAndPass,
            ManagedStart::Stop => ManagedStartView::Stop,
            ManagedStart::Start { url, token } => ManagedStartView::Start {
                url: url@,
                token: token.deep_view(),
            },
        }
    }
}

/// The token that goes with a channel: the variable's trimmed value, where it is not blank.
pub open spec fn channel_token(vars: Map<Seq<char>, Seq<char>>) -> Option<Seq<char>> {
    if var_set(vars, "kaku_codex_app_server_token"@) {
        Some(trimmed(vars["kaku_codex_app_server_token"@]))
    } else {
        None
    }
}

/// What a user variable asks of a pane's channel: its first word is the address of a web socket,
/// or the word that stops the channel; no word stops it too.
pub open spec fn managed_start(
    name: Seq<char>,
    value: Seq<char>,
    vars: Map<Seq<char>, Seq<char>>,
) -> ManagedStartView {
    if name != "kaku_codex_app_server_ws"@ {
        ManagedStartView::Pass
    } else if words_of(value).len() == 0 {
        ManagedStartView::StopAndPass
    } else {
        let url = words_of(value)[0];
        if url == "__stop__"@ {
            ManagedStartView::Stop
        } else if begins(url, "ws://"@) || begins(url, "wss://"@) {
            ManagedStartView::Start { url, token: channel_token(vars) }
        } else {
            ManagedStartView::Pass
        }
    }
}

/// What a user variable asks of a pane's channel.
pub fn managed_start_request(name: &str, value: &str, user_vars: &UserVars) -> (r: ManagedStart)
    ensures
        r.deep_view() == managed_start(name@, value@, user_vars@),
{
    if !same_text(name, "kaku_codex_app_server_ws") {
        return ManagedStart::Pass;
    }
    let words = split_whitespace(value);
    assert(words.deep_view().len() == words@.len());
    if words.len() == 0 {
        return ManagedStart::StopAndPass;
    }
    let url = words[0].as_str();
    assert(words.deep_view()[0] == url@);
    if same_text(url, "__stop__") {
        return ManagedStart::Stop;
    }
    if !starts_with(url, "ws://") && !starts_with(url, "wss://") {
        return ManagedStart::Pass;
    }
    let token = match user_vars.get("kaku_codex_app_server_token") {
        Some(value) => if is_var_set(user_vars, "kaku_codex_app_server_token") {
            Some(trim(value))
        } else {
            None
        },
        None => None,
    };
    ManagedStart::Start { url: url.to_owned(), token }
}

/// The panes with an open channel, and the address of each.
pub struct CodexChannels {
    urls: HashMap<u64, String>,
}

impl View for CodexChannels {
    type V = Map<u64, Seq<char>>;

    closed spec fn view(&self) -> Map<u64, Seq<char>> {
        self.urls@.map_values(|url: String| url@)
    }
}

/// What became of a pane's channel.
#[derive(Debug, Clone, Copy, PartialEq, Eq, Structural)]
pub enum ChannelChange {
    /// A channel to this address was open already.
    Kept,
    /// A channel was opened where there was none.
    Opened,
    /// A channel to another address was stopped and a new one opened.
    Replaced,
}

impl CodexChannels {
    /// No channels.
    pub fn new() -> (r: CodexChannels)
        ensures
            r@ == Map::<u64, Seq<char>>::empty(),
    {
        let r = CodexChannels { urls: HashMap::new() };
        assert(r@ =~= Map::<u64, Seq<char>>::empty());
        r
    }

    /// Whether the pane has an open channel.
    pub fn is_open(&self, pane_id: u64) -> (r: bool)
        ensures
            r == self@.dom().contains(pane_id),
    {
        broadcast use vstd::std_specs::hash::group_hash_axioms;

        self.urls.contains_key(&pane_id)
    }

    /// Opens a channel of a pane, in place of one to another address.
    pub fn start_or_replace(&mut self, pane_id: u64, url: &str) -> (r: ChannelChange)
        ensures
            final(self)@ == old(self)@.insert(pane_id, url@),
            r == if !old(self)@.dom().contains(pane_id) {
                ChannelChange::Opened
            } else if old(self)@[pane_id] == url@ {
                ChannelChange::Kept
            } else {
                ChannelChange::Replaced
            },
    {
        broadcast use vstd::std_specs::hash::group_hash_axioms;

        let ghost before = self@;
        let change = match self.urls.get(&pane_id) {
            Some(open) => if same_text(open.as_str(), url) {
                ChannelChange::Kept
            } else {
                ChannelChange::Replaced
            },
            None => ChannelChange::Opened,
        };
        self.urls.insert(pane_id, url.to_owned());
        assert(self@ =~= before.insert(pane_id, url@));
        change
    }

    /// Stops the channel of a pane, and gives back its address.
    pub fn stop(&mut self, pane_id: u64) -> (r: Option<String>)
        ensures
            final(self)@ == old(self)@.remove(pane_id),
            r.deep_view() == if old(self)@.dom().contains(pane_id) {
                Some(old(self)@[pane_id])
            } else {
                None
            },
    {
        broadcast use vstd::std_specs::hash::group_hash_axioms;

        let ghost before = self@;
        let r = self.urls.remove(&pane_id);
        assert(self@ =~= before.remove(pane_id));
        r
    }

    /// Stops every channel.
    pub fn stop_all(&mut self)
        ensures
            final(self)@ == Map::<u64, Seq<char>>::empty(),
    {
        self.urls.clear();
        assert(self@ =~= Map::<u64, Seq<char>>::empty());
    }
}

// ---------------------------------------------------------------------------
// Laws
// ---------------------------------------------------------------------------

/// No approval is ever granted: whatever the server asks, the answer holds no decision but `cancel`.
pub proof fn law_nothing_is_approved(method: Seq<char>)
    ensures
        member_of(answer_to(method), "decision"@) matches Some(decision) ==> decision
            == JsonView::Text("cancel"@),
{
    reveal_strlit("decision");
    reveal_strlit("answers");
    reveal_strlit("response");
    reveal_strlit("error");
    reveal_with_fuel(first_field, 2);
    assert("decision"@.len() != "answers"@.len());
    assert("decision"@[0] != "response"@[0]);
    assert("decision"@.len() != "error"@.len());
}

/// Every request with a method is answered under its own id, and is not reported.
pub proof fn law_requests_are_answered(payload: JsonView, id: JsonView, method: Seq<char>)
    requires
        member_of(payload, "id"@) == Some(id),
        member_of(payload, "method"@) == Some(JsonView::Text(method)),
    ensures
        reaction_to(payload) == ReactionView::Send(
            json_text(JsonView::Object(seq![("id"@, id), ("result"@, answer_to(method))])),
        ),
{
}

} // verus!
