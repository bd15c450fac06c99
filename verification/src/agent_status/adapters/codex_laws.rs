//! What holds of the Codex adapter over several signals.
use vstd::prelude::*;

use crate::agent_status::adapters::codex::{
    codex_provider, command_step, exit_signature, exit_step, exited_command, notified, output_step,
    pane_at, panes_after, signal_step, signalled_pane, text_step, unmoved, wants_approval, PaneView,
};
use crate::agent_status::adapters::codex_output::{
    asks_approval, last_message, last_position, last_prompt, message_in, message_of, object_segment,
    prompt_in, reading, DETAIL_CHARS, MESSAGE_LINES, PROMPT_LINES,
};
use crate::agent_status::adapters::{AgentSignal, SampleView};
use crate::agent_status::codex_context::codex_command;
use crate::agent_status::events::AgentEventView;
use crate::json::{member_of, parsed_json, JsonView};
use crate::numbers::{
    decimal_of, i32_of, is_decimal_digit, law_decimal_distinct, lemma_decimal_digits,
};
use crate::terminal_text::{
    law_plain_text_adds_nothing, law_plain_text_has_no_escape, plain_text, ESCAPE,
};
use crate::text::{
    first_chars, lacks, lemma_lines_lack, lemma_trimmed_lacks, lines_of, next_position, trimmed,
};

verus! {

/// Once an app-server message has been understood in a pane, output without one is passed over,
/// whatever its text says.
pub proof fn law_messages_silence_text(pane: PaneView, sample: SampleView)
    requires
        pane.app_server_signal_seen,
        message_in(sample.tail_text) matches Some(message) ==> notified(pane, message) is None,
    ensures
        output_step(pane, sample) == unmoved(pane),
{
}

/// An understood message makes later text silent until the next command.
pub proof fn law_message_is_remembered(pane: PaneView, sample: SampleView)
    requires
        message_in(sample.tail_text) matches Some(message) && notified(pane, message) is Some,
    ensures
        output_step(pane, sample).pane.app_server_signal_seen,
{
}

proof fn lemma_no_segment(line: Seq<char>)
    requires
        lacks(line, '{'),
    ensures
        object_segment(line) is None,
{
    lemma_next_is_end(line, '{', 0);
    lemma_last_is_within(line, '}');
}

proof fn lemma_next_is_end(s: Seq<char>, c: char, from: int)
    requires
        lacks(s, c),
        0 <= from <= s.len(),
    ensures
        next_position(s, c, from) == s.len(),
    decreases s.len() - from,
{
    if from < s.len() {
        lemma_next_is_end(s, c, from + 1);
    }
}

proof fn lemma_last_is_within(s: Seq<char>, c: char)
    ensures
        last_position(s, c) < s.len(),
    decreases s.len(),
{
    if s.len() > 0 {
        lemma_last_is_within(s.drop_last(), c);
    }
}

proof fn lemma_no_message(output: Seq<Seq<char>>, limit: nat)
    requires
        forall|i: int| 0 <= i < output.len() ==> lacks(#[trigger] output[i], '{'),
    ensures
        last_message(output, limit) is None,
    decreases limit,
{
    if limit > 0 && output.len() > 0 {
        let line = output.last();
        assert(lacks(output[output.len() - 1], '{'));
        law_plain_text_adds_nothing(line, '{');
        lemma_trimmed_lacks(plain_text(line), '{');
        lemma_no_segment(reading(line));
        assert forall|i: int| 0 <= i < output.drop_last().len() implies lacks(
            #[trigger] output.drop_last()[i],
            '{',
        ) by {
            assert(output.drop_last()[i] == output[i]);
        }
        lemma_no_message(output.drop_last(), (limit - 1) as nat);
    }
}

/// Output without an opening brace shows no app-server message.
pub proof fn law_messages_need_a_brace(tail: Seq<char>)
    requires
        lacks(tail, '{'),
    ensures
        message_in(tail) is None,
{
    lemma_lines_lack(tail, '{');
    lemma_no_message(lines_of(tail), MESSAGE_LINES as nat);
}

/// The pane after samples of its output, in order.
pub open spec fn pane_after_output(pane: PaneView, samples: Seq<SampleView>) -> PaneView
    decreases samples.len(),
{
    if samples.len() == 0 {
        pane
    } else {
        output_step(pane_after_output(pane, samples.drop_last()), samples.last()).pane
    }
}

proof fn lemma_messages_stay_seen(pane: PaneView, samples: Seq<SampleView>)
    requires
        pane.app_server_signal_seen,
    ensures
        pane_after_output(pane, samples).app_server_signal_seen,
    decreases samples.len(),
{
    if samples.len() > 0 {
        lemma_messages_stay_seen(pane, samples.drop_last());
    }
}

/// Text never overrides messages: once a message has been understood, whatever output follows it,
/// output without an opening brace changes and reports nothing, even where it shows an approval
/// prompt.
pub proof fn law_text_never_overrides_messages(
    pane: PaneView,
    first: SampleView,
    between: Seq<SampleView>,
    sample: SampleView,
)
    requires
        message_in(first.tail_text) matches Some(message) && notified(pane, message) is Some,
        lacks(sample.tail_text, '{'),
    ensures
        ({
            let later = pane_after_output(output_step(pane, first).pane, between);
            output_step(later, sample) == unmoved(later)
        }),
{
    law_message_is_remembered(pane, first);
    lemma_messages_stay_seen(output_step(pane, first).pane, between);
    law_messages_need_a_brace(sample.tail_text);
}

/// Asking for an approval with the same detail twice reports it once. Nothing but the prompt that is
/// shown changes.
pub proof fn law_repeated_approval_is_silent(pane: PaneView, detail: Option<Seq<char>>)
    ensures
        ({
            let once = wants_approval(pane, detail);
            &&& wants_approval(once.pane, detail) == unmoved(once.pane)
            &&& once.pane == (PaneView {
                approval_prompt_visible: true,
                approval_prompt_detail: once.pane.approval_prompt_detail,
                ..pane
            })
        }),
{
}

/// A line among the last `limit` of `output`, by its place.
pub open spec fn near_end(output: Seq<Seq<char>>, limit: nat, place: int) -> bool {
    0 <= place < output.len() && output.len() - limit <= place
}

/// The line at this place asks for an approval, and none after it does.
pub open spec fn asks_last(output: Seq<Seq<char>>, place: int) -> bool {
    &&& asks_approval(reading(output[place]))
    &&& forall|j: int|
        place < j < output.len() ==> !asks_approval(reading(#[trigger] output[j]))
}

proof fn lemma_last_prompt(output: Seq<Seq<char>>, limit: nat)
    ensures
        match last_prompt(output, limit) {
            Some(prompt) => exists|place: int|
                #![trigger output[place]]
                near_end(output, limit, place) && asks_last(output, place) && prompt == first_chars(
                    reading(output[place]),
                    DETAIL_CHARS as nat,
                ),
            None => forall|place: int|
                near_end(output, limit, place) ==> !asks_approval(
                    reading(#[trigger] output[place]),
                ),
        },
    decreases limit,
{
    if limit > 0 && output.len() > 0 {
        let last = output.len() - 1;
        assert(output.last() == output[last]);
        if asks_approval(reading(output.last())) {
            assert(near_end(output, limit, last) && asks_last(output, last));
        } else {
            let rest = output.drop_last();
            lemma_last_prompt(rest, (limit - 1) as nat);
            assert forall|i: int| 0 <= i < rest.len() implies #[trigger] rest[i] == output[i] by {}
            match last_prompt(rest, (limit - 1) as nat) {
                Some(prompt) => {
                    let place = choose|place: int|
                        #![trigger rest[place]]
                        near_end(rest, (limit - 1) as nat, place) && asks_last(rest, place)
                            && prompt == first_chars(reading(rest[place]), DETAIL_CHARS as nat);
                    assert(rest[place] == output[place]);
                    assert forall|j: int| place < j < output.len() implies !asks_approval(
                        reading(#[trigger] output[j]),
                    ) by {
                        if j < last {
                            assert(rest[j] == output[j]);
                        }
                    }
                    assert(near_end(output, limit, place) && asks_last(output, place));
                },
                None => {
                    assert forall|place: int| near_end(output, limit, place) implies !asks_approval(
                        reading(#[trigger] output[place]),
                    ) by {
                        if place < last {
                            assert(rest[place] == output[place]);
                            assert(near_end(rest, (limit - 1) as nat, place));
                        }
                    }
                },
            }
        }
    }
}

/// The prompt of a tail is its last prompting line among the last ones that are searched, cut to the
/// length of a detail; where none of these prompts, there is none. It is not empty, no longer than a
/// detail, and holds no escape character.
pub proof fn law_prompt_is_the_last_one(tail: Seq<char>)
    ensures
        ({
            let output = lines_of(tail);
            match prompt_in(tail) {
                Some(prompt) => {
                    &&& 1 <= prompt.len() <= DETAIL_CHARS
                    &&& lacks(prompt, ESCAPE)
                    &&& exists|place: int|
                        #![trigger output[place]]
                        near_end(output, PROMPT_LINES as nat, place) && asks_last(output, place)
                            && prompt == first_chars(
                            reading(output[place]),
                            DETAIL_CHARS as nat,
                        )
                },
                None => forall|place: int|
                    near_end(output, PROMPT_LINES as nat, place) ==> !asks_approval(
                        reading(#[trigger] output[place]),
                    ),
            }
        }),
{
    let output = lines_of(tail);
    lemma_last_prompt(output, PROMPT_LINES as nat);
    if prompt_in(tail) is Some {
        let prompt = prompt_in(tail)->0;
        let place = choose|place: int|
            #![trigger output[place]]
            near_end(output, PROMPT_LINES as nat, place) && asks_last(output, place) && prompt
                == first_chars(reading(output[place]), DETAIL_CHARS as nat);
        let line = reading(output[place]);
        law_plain_text_has_no_escape(output[place]);
        lemma_trimmed_lacks(plain_text(output[place]), ESCAPE);
        assert forall|i: int| 0 <= i < prompt.len() implies #[trigger] prompt[i] != ESCAPE by {
            assert(prompt[i] == line[i]);
        }
    }
}

/// Output that shows the same understood message again reports nothing.
pub proof fn law_repeated_message_is_silent(pane: PaneView, sample: SampleView)
    requires
        message_in(sample.tail_text) matches Some(message) && notified(pane, message) is Some,
    ensures
        output_step(output_step(pane, sample).pane, sample).events == Seq::<
            AgentEventView,
        >::empty(),
{
}

/// Output that shows the same approval prompt again reports nothing.
pub proof fn law_repeated_prompt_is_silent(pane: PaneView, sample: SampleView)
    requires
        prompt_in(sample.tail_text) is Some,
    ensures
        text_step(text_step(pane, sample).pane, sample).events == Seq::<AgentEventView>::empty(),
{
}

/// The same exit code, reported again with the same variables, reports nothing.
pub proof fn law_repeated_exit_is_silent(
    pane: PaneView,
    value: Seq<char>,
    vars: Map<Seq<char>, Seq<char>>,
)
    ensures
        exit_step(exit_step(pane, value, vars).pane, value, vars).events == Seq::<
            AgentEventView,
        >::empty(),
{
}

/// A pane as signals leave it: the remembered exit belongs to a run that has begun, and a detail
/// is kept only while its prompt is shown.
pub open spec fn sound_pane(pane: PaneView) -> bool {
    &&& pane.last_exit_signature matches Some(signature) ==> exists|
        generation: u64,
        command: Seq<char>,
        code: i32,
    |
        generation <= pane.command_generation && signature == #[trigger] exit_signature(
            generation,
            command,
            code,
        )
    &&& pane.approval_prompt_visible || pane.approval_prompt_detail is None
}

/// Signals keep a pane sound.
pub proof fn law_signals_keep_panes_sound(pane: PaneView, signal: AgentSignal)
    requires
        sound_pane(pane),
    ensures
        sound_pane(signal_step(pane, signal).pane),
{
    let after = signal_step(pane, signal).pane;
    if after.last_exit_signature != pane.last_exit_signature {
        match signal {
            AgentSignal::UserVar { pane_key, name, value, user_vars } => {
                let code = i32_of(trimmed(value))->0;
                let command = exited_command(pane, user_vars)->0;
                assert(after.last_exit_signature->0 == exit_signature(
                    pane.command_generation,
                    command,
                    code,
                ));
            },
            _ => {},
        }
    }
}

/// Exit signatures of different runs differ.
proof fn lemma_signatures_differ(g: u64, c: Seq<char>, e: i32, h: u64, d: Seq<char>, f: i32)
    requires
        g != h,
    ensures
        exit_signature(g, c, e) != exit_signature(h, d, f),
{
    let a = decimal_of(g as nat);
    let b = decimal_of(h as nat);
    lemma_decimal_digits(g as nat);
    lemma_decimal_digits(h as nat);
    law_decimal_distinct(g as nat, h as nat);
    let s = exit_signature(g, c, e);
    let t = exit_signature(h, d, f);
    if s == t {
        assert(s[a.len() as int] == '\0');
        assert(t[b.len() as int] == '\0');
        if a.len() < b.len() {
            assert(t[a.len() as int] == b[a.len() as int]);
            assert(is_decimal_digit(b[a.len() as int]));
        } else if b.len() < a.len() {
            assert(s[b.len() as int] == a[b.len() as int]);
            assert(is_decimal_digit(a[b.len() as int]));
        } else {
            assert forall|i: int| 0 <= i < a.len() implies a[i] == b[i] by {
                assert(s[i] == a[i]);
                assert(t[i] == b[i]);
            }
            assert(a =~= b);
        }
    }
}

/// Each run of a Codex command reports its end: after the command has been started anew, its exit
/// code produces exactly one event, also where the same command ended with the same code before.
/// (The count of runs does not grow beyond the largest 64-bit number.)
pub proof fn law_each_run_reports_its_end(
    pane: PaneView,
    command: Seq<char>,
    value: Seq<char>,
    vars: Map<Seq<char>, Seq<char>>,
)
    requires
        sound_pane(pane),
        pane.command_generation < u64::MAX,
        trimmed(command).len() > 0,
        codex_command(trimmed(command)),
        i32_of(trimmed(value)) is Some,
    ensures
        exit_step(command_step(pane, command).pane, value, vars).events.len() == 1,
{
    let begun = command_step(pane, command).pane;
    let code = i32_of(trimmed(value))->0;
    let name = exited_command(begun, vars)->0;
    if pane.last_exit_signature is Some {
        let signature = pane.last_exit_signature->0;
        let (g, c, e) = choose|g: u64, c: Seq<char>, e: i32|
            g <= pane.command_generation && signature == #[trigger] exit_signature(g, c, e);
        lemma_signatures_differ(g, c, e, begun.command_generation, name, code);
    }
}

/// A signal of one pane changes nothing of another.
pub proof fn law_panes_are_independent(
    panes: Map<Seq<char>, PaneView>,
    signal: AgentSignal,
    other: Seq<char>,
)
    requires
        other != signalled_pane(signal),
    ensures
        pane_at(panes_after(panes, signal), other) == pane_at(panes, other),
{
}

/// An approval is reported as resolved only while one is shown, and as required only where one is
/// shown afterwards.
pub proof fn law_approvals_pair_up(pane: PaneView, signal: AgentSignal, i: int)
    requires
        0 <= i < signal_step(pane, signal).events.len(),
    ensures
        signal_step(pane, signal).events[i] is ApprovalResolved ==> pane.approval_prompt_visible
            && !signal_step(pane, signal).pane.approval_prompt_visible,
        signal_step(pane, signal).events[i] is ApprovalRequired ==> signal_step(
            pane,
            signal,
        ).pane.approval_prompt_visible,
{
}

/// Every event names Codex.
pub proof fn law_events_name_codex(pane: PaneView, signal: AgentSignal, i: int)
    requires
        0 <= i < signal_step(pane, signal).events.len(),
    ensures
        codex_provider(signal_step(pane, signal).events[i]),
{
}

/// A message is what its payload says: the method, the parameters or null where it has none, and a
/// request exactly where it has an id that is not null. A payload without a method, or with a blank
/// one, is no message.
pub proof fn law_messages_say_what_they_hold(
    signature: Seq<char>,
    payload: JsonView,
    method: Seq<char>,
)
    ensures
        member_of(payload, "method"@) == Some(JsonView::Text(method)) && trimmed(method).len() > 0
            ==> {
            let message = message_of(signature, payload);
            &&& message is Some
            &&& message->0.signature == signature
            &&& message->0.method == method
            &&& member_of(payload, "params"@) matches Some(params) ==> message->0.params == params
            &&& member_of(payload, "params"@) is None ==> message->0.params == JsonView::Null
            &&& member_of(payload, "id"@) is None ==> !message->0.is_request
            &&& member_of(payload, "id"@) == Some(JsonView::Null) ==> !message->0.is_request
            &&& member_of(payload, "id"@) matches Some(id) ==> id != JsonView::Null
                ==> message->0.is_request
        },
        member_of(payload, "method"@) is None ==> message_of(signature, payload) is None,
        member_of(payload, "method"@) == Some(JsonView::Text(method)) && trimmed(method).len() == 0
            ==> message_of(signature, payload) is None,
{
}

/// A message on the last line of a tail is the tail's message, whatever came before it; a blank last
/// line is passed over, and a line that holds no object ends the search.
pub proof fn law_last_line_speaks(output: Seq<Seq<char>>, limit: nat)
    requires
        output.len() > 0,
        limit > 0,
    ensures
        ({
            let line = reading(output.last());
            let found = last_message(output, limit);
            &&& line.len() == 0 ==> found == last_message(output.drop_last(), (limit - 1) as nat)
            &&& line.len() > 0 && object_segment(line) is None ==> found is None
            &&& line.len() > 0 ==> (object_segment(line) matches Some(segment) ==> (parsed_json(
                segment,
            ) matches Some(payload) ==> (message_of(segment, payload) is Some ==> found
                == message_of(segment, payload))))
        }),
{
}

/// The object in a line is what stands from its first opening brace to its last closing one.
pub proof fn law_object_in_a_line(before: Seq<char>, inside: Seq<char>, after: Seq<char>)
    requires
        lacks(before, '{'),
        lacks(after, '}'),
    ensures
        object_segment(before + seq!['{'] + inside + seq!['}'] + after) == Some(
            seq!['{'] + inside + seq!['}'],
        ),
{
    let line = before + seq!['{'] + inside + seq!['}'] + after;
    let start = before.len() as int;
    let end = start + 1 + inside.len();
    lemma_first_brace(line, start, 0);
    lemma_last_brace(line, end);
    assert(line.subrange(start, end + 1) =~= seq!['{'] + inside + seq!['}']);
}

proof fn lemma_first_brace(line: Seq<char>, start: int, from: int)
    requires
        0 <= from <= start < line.len(),
        line[start] == '{',
        forall|i: int| 0 <= i < start ==> #[trigger] line[i] != '{',
    ensures
        next_position(line, '{', from) == start,
    decreases start - from,
{
    if from < start {
        assert(line[from] != '{');
        lemma_first_brace(line, start, from + 1);
    }
}

proof fn lemma_last_brace(line: Seq<char>, end: int)
    requires
        0 <= end < line.len(),
        line[end] == '}',
        forall|i: int| end < i < line.len() ==> #[trigger] line[i] != '}',
    ensures
        last_position(line, '}') == end,
    decreases line.len(),
{
    if line.len() - 1 > end {
        assert(line[line.len() - 1] != '}');
        let shorter = line.drop_last();
        assert forall|i: int| end < i < shorter.len() implies #[trigger] shorter[i] != '}' by {
            assert(shorter[i] == line[i]);
        }
        lemma_last_brace(shorter, end);
    }
}

/// Eighteen lines are searched for a prompt and twenty-four for a message, and a detail has at most
/// a hundred and sixty characters.
pub proof fn law_search_limits()
    ensures
        PROMPT_LINES == 18,
        MESSAGE_LINES == 24,
        DETAIL_CHARS == 160,
{
}

} // verus!
