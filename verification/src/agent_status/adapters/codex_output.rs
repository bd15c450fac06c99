//! What Codex writes to a terminal: approval prompts and app-server messages.
use vstd::prelude::*;

use crate::json::{
    as_text, into_member, member, member_of, parse, parsed_json, text_in, Json, JsonView,
};
use crate::terminal_text::{plain_text, strip_ansi_control};
use crate::text::{
    chars_of, contains_any, contains_any_of, first_chars, is_blank, is_empty, lines, lines_of,
    lowered, next_position, take_chars, text_of, to_ascii_lowercase, trim, trimmed,
};

verus! {

/// How many lines from the end are searched for an approval prompt.
pub const PROMPT_LINES: usize = 18;

/// How many lines from the end are searched for an app-server message.
pub const MESSAGE_LINES: usize = 24;

/// How many characters of a detail are kept.
pub const DETAIL_CHARS: usize = 160;

// ---------------------------------------------------------------------------
// Approval prompts
// ---------------------------------------------------------------------------

/// A line that asks the user to approve something: it speaks of approving or confirming, or asks
/// about an action, and it offers an answer, asks a question or uses a phrase found only in prompts.
/// Latin words count in any ASCII letter case.
pub open spec fn asks_approval(line: Seq<char>) -> bool {
    let lower = lowered(line);
    let approve = contains_any(lower, seq!["approve", "approval"]) || contains_any(
        line,
        seq!["批准", "审批"],
    );
    let confirm = contains_any(
        lower,
        seq!["confirm", "allow", "permission", "proceed", "continue"],
    ) || contains_any(line, seq!["允许", "确认", "继续"]);
    let hint = contains_any(
        lower,
        seq![
            "[y/n]",
            "(y/n)",
            "[y/n",
            "(y/n",
            "yes/no",
            "press enter",
            "approve and continue",
            "approve once",
            "always allow",
            "deny",
            "reject",
        ],
    ) || contains_any(line, seq!["允许一次", "总是允许", "拒绝"]);
    let question = contains_any(line, seq!["?", "？"]);
    let action = contains_any(lower, seq!["command", "action", "tool"]);
    let strong = contains_any(lower, seq!["approve and continue", "always allow", "approve once"])
        || contains_any(line, seq!["允许一次", "总是允许"]);
    line.len() > 0 && (approve || confirm || (question && action)) && (hint || question || strong)
}

/// Whether the line asks the user to approve something.
pub fn is_approval_prompt(line: &str) -> (r: bool)
    ensures
        r == asks_approval(line@),
{
    if is_empty(line) {
        return false;
    }
    let lower = to_ascii_lowercase(line);
    let lower = lower.as_str();
    let has_approve = contains_any_of(lower, &vec!["approve", "approval"]) || contains_any_of(
        line,
        &vec!["批准", "审批"],
    );
    let has_confirm = contains_any_of(
        lower,
        &vec!["confirm", "allow", "permission", "proceed", "continue"],
    ) || contains_any_of(line, &vec!["允许", "确认", "继续"]);
    let has_prompt_hint = contains_any_of(
        lower,
        &vec![
            "[y/n]",
            "(y/n)",
            "[y/n",
            "(y/n",
            "yes/no",
            "press enter",
            "approve and continue",
            "approve once",
            "always allow",
            "deny",
            "reject",
        ],
    ) || contains_any_of(line, &vec!["允许一次", "总是允许", "拒绝"]);
    let has_question_mark = contains_any_of(line, &vec!["?", "？"]);
    let has_action_word = contains_any_of(lower, &vec!["command", "action", "tool"]);
    let has_strong_phrase = contains_any_of(
        lower,
        &vec!["approve and continue", "always allow", "approve once"],
    ) || contains_any_of(line, &vec!["允许一次", "总是允许"]);
    (has_approve || has_confirm || (has_question_mark && has_action_word)) && (has_prompt_hint
        || has_question_mark || has_strong_phrase)
}

/// A line of terminal output as it reads: without escape sequences and outer white space.
pub open spec fn reading(line: Seq<char>) -> Seq<char> {
    trimmed(plain_text(line))
}

/// The last approval prompt among the last `limit` lines, cut to the length of a detail.
pub open spec fn last_prompt(output: Seq<Seq<char>>, limit: nat) -> Option<Seq<char>>
    decreases limit,
{
    if limit == 0 || output.len() == 0 {
        None
    } else if asks_approval(reading(output.last())) {
        Some(first_chars(reading(output.last()), DETAIL_CHARS as nat))
    } else {
        last_prompt(output.drop_last(), (limit - 1) as nat)
    }
}

/// The approval prompt that a tail of terminal output shows.
pub open spec fn prompt_in(tail: Seq<char>) -> Option<Seq<char>> {
    last_prompt(lines_of(tail), PROMPT_LINES as nat)
}

/// The approval prompt that a tail of terminal output shows: the last such line near its end.
pub fn extract_approval_prompt(tail_text: &str) -> (r: Option<String>)
    ensures
        r.deep_view() == prompt_in(tail_text@),
{
    let output = lines(tail_text);
    let ghost all = output.deep_view();
    let mut left: usize = output.len();
    let mut taken: usize = 0;
    assert(all.take(left as int) =~= all);
    while left > 0 && taken < PROMPT_LINES
        invariant
            left <= output@.len(),
            taken <= PROMPT_LINES,
            all == output.deep_view(),
            prompt_in(tail_text@) == last_prompt(
                all.take(left as int),
                (PROMPT_LINES - taken) as nat,
            ),
        decreases left,
    {
        let stripped = strip_ansi_control(output[left - 1].as_str());
        let line = trim(stripped.as_str());
        assert(all.take(left as int).last() == output@[left - 1]@);
        assert(all.take(left as int).drop_last() =~= all.take(left - 1));
        if is_approval_prompt(line.as_str()) {
            return Some(take_chars(line.as_str(), DETAIL_CHARS));
        }
        left = left - 1;
        taken = taken + 1;
    }
    None
}

// ---------------------------------------------------------------------------
// App-server messages
// ---------------------------------------------------------------------------

/// The position of the last `c` in `s`, or -1 where there is none.
pub open spec fn last_position(s: Seq<char>, c: char) -> int
    decreases s.len(),
{
    if s.len() == 0 {
        -1
    } else if s.last() == c {
        s.len() - 1
    } else {
        last_position(s.drop_last(), c)
    }
}

/// What stands from the first `{` to the last `}` of a line, where the one comes before the other.
pub open spec fn object_segment(line: Seq<char>) -> Option<Seq<char>> {
    let start = next_position(line, '{', 0);
    let end = last_position(line, '}');
    if start < end {
        Some(line.subrange(start, end + 1))
    } else {
        None
    }
}

/// What stands from the first `{` to the last `}` of a line, where the one comes before the other.
pub fn extract_json_object_segment(line: &str) -> (r: Option<String>)
    ensures
        r.deep_view() == object_segment(line@),
{
    let chars = chars_of(line);
    let total: usize = chars.len();
    let mut start: usize = 0;
    while start < total && chars[start] != '{'
        invariant
            start <= total,
            total == chars@.len(),
            chars@ == line@,
            next_position(line@, '{', 0) == next_position(line@, '{', start as int),
        decreases total - start,
    {
        start = start + 1;
    }
    let mut past: usize = total;
    assert(line@.take(total as int) =~= line@);
    while past > 0 && chars[past - 1] != '}'
        invariant
            past <= total,
            total == chars@.len(),
            chars@ == line@,
            last_position(line@, '}') == last_position(line@.take(past as int), '}'),
        decreases past,
    {
        assert(line@.take(past as int).last() == chars@[past - 1]);
        assert(line@.take(past as int).drop_last() =~= line@.take(past - 1));
        past = past - 1;
    }
    assert(past > 0 ==> line@.take(past as int).last() == chars@[past - 1]);
    assert(last_position(line@, '}') == past - 1);
    if past == 0 || start >= past - 1 {
        return None;
    }
    Some(text_of(&chars, start, past))
}

/// A message of the Codex app server.
#[derive(Debug, PartialEq)]
pub struct AppServerNotification {
    pub signature: String,
    pub method: String,
    pub params: Json,
    pub is_request: bool,
}

/// An [`AppServerNotification`] over sequences.
pub struct NotificationView {
    pub signature: Seq<char>,
    pub method: Seq<char>,
    pub params: JsonView,
    pub is_request: bool,
}

impl DeepView for AppServerNotification {
    type V = NotificationView;

    open spec fn deep_view(&self) -> NotificationView {
        NotificationView {
            signature: self.signature@,
            method: self.method@,
            params: self.params.content(),
            is_request: self.is_request,
        }
    }
}

/// The message that a JSON value is: it has a method that is not blank. One with an id that is not
/// null is a request.
pub open spec fn message_of(signature: Seq<char>, payload: JsonView) -> Option<NotificationView> {
    match text_in(member_of(payload, "method"@)) {
        Some(method) => if trimmed(method).len() > 0 {
            let id = member_of(payload, "id"@);
            let params = member_of(payload, "params"@);
            Some(
                NotificationView {
                    signature,
                    method,
                    params: if params is Some {
                        params->0
                    } else {
                        JsonView::Null
                    },
                    is_request: id is Some && id->0 != JsonView::Null,
                },
            )
        } else {
            None
        },
        None => None,
    }
}

/// The message that a JSON value is, where it is one.
pub fn notification_from(signature: String, payload: Json) -> (r: Option<AppServerNotification>)
    ensures
        r.deep_view() == message_of(signature@, payload.content()),
{
    let method = match as_text(member(&payload, "method")) {
        Some(value) => {
            if is_blank(value) {
                return None;
            }
            value.to_owned()
        },
        None => return None,
    };
    let is_request = match member(&payload, "id") {
        Some(Json::Null) => false,
        Some(_) => true,
        None => false,
    };
    let params = match into_member(payload, "params") {
        Some(value) => value,
        None => Json::Null,
    };
    Some(AppServerNotification { signature, method, params, is_request })
}

/// The last app-server message among the last `limit` lines. Blank lines and JSON that is no message
/// are passed over; a line without a JSON object ends the search.
pub open spec fn last_message(output: Seq<Seq<char>>, limit: nat) -> Option<NotificationView>
    decreases limit,
{
    if limit == 0 || output.len() == 0 {
        None
    } else {
        let line = reading(output.last());
        let earlier = last_message(output.drop_last(), (limit - 1) as nat);
        if line.len() == 0 {
            earlier
        } else {
            match object_segment(line) {
                None => None,
                Some(segment) => match parsed_json(segment) {
                    None => earlier,
                    Some(payload) => match message_of(segment, payload) {
                        None => earlier,
                        Some(message) => Some(message),
                    },
                },
            }
        }
    }
}

/// The app-server message that a tail of terminal output shows.
pub open spec fn message_in(tail: Seq<char>) -> Option<NotificationView> {
    last_message(lines_of(tail), MESSAGE_LINES as nat)
}

/// The app-server message that a tail of terminal output shows.
pub fn extract_app_server_notification(tail_text: &str) -> (r: Option<AppServerNotification>)
    ensures
        r.deep_view() == message_in(tail_text@),
{
    let output = lines(tail_text);
    let ghost all = output.deep_view();
    let mut left: usize = output.len();
    let mut taken: usize = 0;
    assert(all.take(left as int) =~= all);
    while left > 0 && taken < MESSAGE_LINES
        invariant
            left <= output@.len(),
            taken <= MESSAGE_LINES,
            all == output.deep_view(),
            message_in(tail_text@) == last_message(
                all.take(left as int),
                (MESSAGE_LINES - taken) as nat,
            ),
        decreases left,
    {
        let stripped = strip_ansi_control(output[left - 1].as_str());
        let line = trim(stripped.as_str());
        assert(all.take(left as int).last() == output@[left - 1]@);
        assert(all.take(left as int).drop_last() =~= all.take(left - 1));
        left = left - 1;
        taken = taken + 1;
        if is_empty(line.as_str()) {
            continue;
        }
        match extract_json_object_segment(line.as_str()) {
            None => {
                return None;
            },
            Some(segment) => {
                match parse(segment.as_str()) {
                    None => {},
                    Some(payload) => {
                        match notification_from(segment, payload) {
                            None => {},
                            Some(message) => {
                                return Some(message);
                            },
                        }
                    },
                }
            },
        }
    }
    None
}

} // verus!
