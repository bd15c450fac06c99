use kaku::agent_status::adapters::UserVars;
use kaku::agent_status::events::AgentEvent;
use kaku::codex_app_server::{
    bearer_header, connect_address, extract_thread_id, handle_server_request, initialize_payload,
    initialized_payload, is_waiting_on_approval_status, is_waiting_on_user_input_status,
    managed_start_request, map_app_server_notification, map_thread_status_changed,
    map_turn_completed, next_request_id, react_to, react_to_payload, reconnect_after,
    ChannelChange, CodexChannels, Incoming, ManagedStart, Reaction,
};
use kaku::json::{parse, Json};

fn read(text: &str) -> Json {
    parse(text).expect("json")
}

fn codex() -> String {
    "codex".to_string()
}

fn output() -> AgentEvent {
    AgentEvent::TaskOutput { provider: codex() }
}

fn completed() -> AgentEvent {
    AgentEvent::TaskCompleted { provider: codex() }
}

fn failed(reason: &str) -> AgentEvent {
    AgentEvent::TaskFailed { provider: codex(), reason: Some(reason.to_string()) }
}

fn required(detail: &str) -> AgentEvent {
    AgentEvent::ApprovalRequired { provider: codex(), detail: Some(detail.to_string()) }
}

fn resolved(approved: bool) -> AgentEvent {
    AgentEvent::ApprovalResolved { provider: codex(), approved }
}

fn mapped(method: &str, params: &str) -> Option<Vec<AgentEvent>> {
    map_app_server_notification(method, Some(&read(params)))
}

#[test]
fn payloads_are_the_ones_of_the_protocol() {
    assert_eq!(
        initialize_payload(7, "1.2.3"),
        r#"{"id":7,"method":"initialize","params":{"capabilities":{},"clientInfo":{"name":"kaku-gui","version":"1.2.3"}}}"#
    );
    assert_eq!(initialized_payload(), r#"{"method":"initialized"}"#);
    assert_eq!(bearer_header("t0ken"), "Bearer t0ken");
}

#[test]
fn request_ids_count_up_and_stay_at_the_end() {
    let mut id: u64 = 1;
    assert_eq!(next_request_id(&mut id), 1);
    assert_eq!(next_request_id(&mut id), 2);
    id = u64::MAX;
    assert_eq!(next_request_id(&mut id), u64::MAX);
    assert_eq!(id, u64::MAX);
}

#[test]
fn addresses_are_checked_and_normalised() {
    assert_eq!(connect_address("ws://host:80").as_deref(), Ok("ws://host/"));
    assert_eq!(connect_address("WSS://Host/a b").as_deref(), Ok("wss://host/a%20b"));
    assert_eq!(connect_address("no url"), Err("invalid ws url: no url".to_string()));
}

#[test]
fn every_request_is_answered_without_approval() {
    for (method, answer) in [
        ("item/commandExecution/requestApproval", r#"{"decision":"cancel"}"#),
        ("item/fileChange/requestApproval", r#"{"decision":"cancel"}"#),
        ("item/permissions/requestApproval", r#"{"decision":"cancel"}"#),
        ("item/tool/requestUserInput", r#"{"answers":[]}"#),
        ("mcpServer/elicitation/request", r#"{"response":null}"#),
        ("item/tool/call", r#"{"error":"kaku-gui does not proxy dynamic tool calls"}"#),
        ("applyPatchApproval", r#"{"decision":"cancel"}"#),
        ("execCommandApproval", r#"{"decision":"cancel"}"#),
        ("anything/else", "{}"),
    ] {
        assert_eq!(handle_server_request(method), read(answer), "{method}");
        assert_eq!(
            react_to(Incoming::Text(format!(r#"{{"id":"r1","method":"{method}"}}"#))),
            Reaction::Send(format!(r#"{{"id":"r1","result":{answer}}}"#))
        );
    }
}

#[test]
fn messages_lead_to_their_reactions() {
    assert_eq!(react_to(Incoming::Binary), Reaction::Ignore);
    assert_eq!(react_to(Incoming::Pong), Reaction::Ignore);
    assert_eq!(react_to(Incoming::Frame), Reaction::Ignore);
    assert_eq!(react_to(Incoming::Ping), Reaction::AnswerPing);
    assert_eq!(react_to(Incoming::Close), Reaction::Finish);
    assert_eq!(react_to(Incoming::End), Reaction::Finish);
    assert_eq!(react_to(Incoming::Text("nope".to_string())), Reaction::Ignore);
    assert_eq!(react_to_payload(read(r#"{"id":1}"#)), Reaction::Ignore);
    assert_eq!(react_to_payload(read(r#"{"id":null,"method":"x"}"#)), Reaction::Send(r#"{"id":null,"result":{}}"#.to_string()));
    assert_eq!(react_to_payload(read(r#"{"params":{}}"#)), Reaction::Ignore);
    assert_eq!(react_to_payload(read(r#"{"method":"unknown"}"#)), Reaction::Ignore);
    assert_eq!(
        react_to_payload(read(r#"{"method":"error","params":{"willRetry":true}}"#)),
        Reaction::Ignore
    );
    assert_eq!(
        react_to_payload(read(r#"{"method":"error","params":{"willRetry":true,"threadId":"t"}}"#)),
        Reaction::Report { events: vec![], thread_id: Some("t".to_string()) }
    );
    assert_eq!(
        react_to_payload(read(r#"{"method":"item/started","params":{"threadId":" t "}}"#)),
        Reaction::Report { events: vec![output()], thread_id: Some("t".to_string()) }
    );
}

#[test]
fn notifications_are_mapped() {
    assert_eq!(mapped("item/started", "{}"), Some(vec![output()]));
    assert_eq!(mapped("item/completed", "{}"), Some(vec![output()]));
    assert_eq!(mapped("serverRequest/resolved", "{}"), Some(vec![resolved(true)]));
    assert_eq!(
        mapped("item/autoApprovalReview/started", r#"{"review":{"rationale":"why"}}"#),
        Some(vec![required("why")])
    );
    assert_eq!(
        mapped("item/autoApprovalReview/started", "{}"),
        Some(vec![required("autoApprovalReview")])
    );
    for (status, approved) in
        [("approved", true), ("inProgress", true), ("denied", false), ("", false)]
    {
        assert_eq!(
            mapped(
                "item/autoApprovalReview/completed",
                &format!(r#"{{"review":{{"status":"{status}"}}}}"#)
            ),
            Some(vec![resolved(approved)])
        );
    }
    assert_eq!(mapped("item/autoApprovalReview/completed", "{}"), Some(vec![resolved(true)]));
    assert_eq!(mapped("error", "{}"), Some(vec![failed("codex app-server error")]));
    assert_eq!(
        mapped("error", r#"{"error":{"message":"bad"}}"#),
        Some(vec![failed("bad")])
    );
    assert_eq!(mapped("error", r#"{"willRetry":true}"#), Some(vec![]));
    assert_eq!(map_app_server_notification("turn/completed", None), Some(vec![]));
    assert_eq!(mapped("thread/started", "{}"), None);
}

#[test]
fn thread_and_turn_statuses_are_mapped() {
    let status = |text: &str| map_thread_status_changed(&read(text));
    assert_eq!(status(r#"{"status":{"type":"idle"}}"#), Some(vec![completed()]));
    assert_eq!(
        status(r#"{"status":{"type":"systemError"}}"#),
        Some(vec![failed("codex app-server reported systemError")])
    );
    assert_eq!(status(r#"{"status":{"type":"active"}}"#), Some(vec![output()]));
    assert_eq!(
        status(r#"{"status":{"type":"active","activeFlags":["WAITINGONAPPROVAL"]}}"#),
        Some(vec![required("WAITINGONAPPROVAL")])
    );
    assert_eq!(
        status(r#"{"status":{"type":"active","activeFlags":["needsApproval"]}}"#),
        Some(vec![required("waitingOnApproval")])
    );
    assert_eq!(
        status(r#"{"status":{"type":"active","waitReason":"approval of a patch"}}"#),
        Some(vec![required("waitingOnApproval")])
    );
    assert_eq!(status(r#"{"status":{"type":"other"}}"#), None);
    assert_eq!(status("{}"), None);
    let turn = |text: &str| map_turn_completed(&read(text));
    assert_eq!(turn(r#"{"turn":{"status":"completed"}}"#), vec![completed()]);
    assert_eq!(turn(r#"{"turn":{"status":"failed"}}"#), vec![failed("codex turn failed")]);
    assert_eq!(
        turn(r#"{"turn":{"status":"interrupted"}}"#),
        vec![failed("codex turn interrupted")]
    );
    assert_eq!(turn(r#"{"turn":{"status":"inProgress"}}"#), vec![]);
}

#[test]
fn waiting_is_told_apart() {
    let approval = |text: &str| is_waiting_on_approval_status(Some(&read(text)));
    let input = |text: &str| is_waiting_on_user_input_status(Some(&read(text)));
    assert!(approval(r#"{"type":"waitingForApproval"}"#));
    assert!(!approval(r#"{"type":"active"}"#));
    assert!(!is_waiting_on_approval_status(None));
    assert!(input(r#"{"type":"awaitingUserInput"}"#));
    assert!(input(r#"{"activeFlags":["waitingForUser"]}"#));
    assert!(!input(r#"{"activeFlags":["waitingForUserApproval"]}"#));
    assert!(input(r#"{"waitReason":"please reply"}"#));
    assert!(!input(r#"{"waitReason":"user approval"}"#));
    assert!(!is_waiting_on_user_input_status(None));
}

#[test]
fn thread_ids_are_found_and_trimmed() {
    let find = |text: &str| extract_thread_id(Some(&read(text)));
    assert_eq!(find(r#"{"status":{"threadId":"s"}}"#).as_deref(), Some("s"));
    assert_eq!(find(r#"{"threadId":" a ","thread":{"id":"b"}}"#).as_deref(), Some("a"));
    assert_eq!(find(r#"{"threadId":" ","thread":{"id":"b"}}"#), None);
    assert_eq!(find(r#"{"threadId":1,"thread":{"id":"b"}}"#).as_deref(), Some("b"));
    assert_eq!(extract_thread_id(None), None);
}

#[test]
fn a_channel_is_asked_for_by_a_variable() {
    let mut vars = UserVars::new();
    let ask = |value: &str, vars: &UserVars| {
        managed_start_request("kaku_codex_app_server_ws", value, vars)
    };
    assert_eq!(managed_start_request("other", "ws://h", &vars), ManagedStart::Pass);
    assert_eq!(ask("  ", &vars), ManagedStart::StopAndPass);
    assert_eq!(ask("__stop__ now", &vars), ManagedStart::Stop);
    assert_eq!(ask("http://h", &vars), ManagedStart::Pass);
    assert_eq!(
        ask(" ws://h x", &vars),
        ManagedStart::Start { url: "ws://h".to_string(), token: None }
    );
    vars.insert("kaku_codex_app_server_token".to_string(), " s3 ".to_string());
    assert_eq!(
        ask("wss://h", &vars),
        ManagedStart::Start { url: "wss://h".to_string(), token: Some("s3".to_string()) }
    );
}

#[test]
fn channels_are_kept_replaced_and_stopped() {
    let mut channels = CodexChannels::new();
    assert!(!channels.is_open(1));
    assert_eq!(channels.start_or_replace(1, "ws://a"), ChannelChange::Opened);
    assert_eq!(channels.start_or_replace(1, "ws://a"), ChannelChange::Kept);
    assert_eq!(channels.start_or_replace(1, "ws://b"), ChannelChange::Replaced);
    assert_eq!(channels.start_or_replace(2, "ws://a"), ChannelChange::Opened);
    assert_eq!(channels.stop(1).as_deref(), Some("ws://b"));
    assert_eq!(channels.stop(1), None);
    assert!(channels.is_open(2));
    channels.stop_all();
    assert!(!channels.is_open(2));
}

#[test]
fn only_a_failed_session_is_tried_again() {
    assert_eq!(reconnect_after(true, false), Some(2000));
    assert_eq!(reconnect_after(true, true), None);
    assert_eq!(reconnect_after(false, false), None);
}
