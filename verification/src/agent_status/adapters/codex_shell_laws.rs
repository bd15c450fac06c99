//! What the Codex adapter reports for shell variables and for plain text.
use vstd::prelude::*;

use crate::agent_status::adapters::codex::{
    exit_signature, output_step, pane_at, variable_step, PaneView, Step,
};
use crate::agent_status::adapters::codex_event_laws::settled;
use crate::agent_status::adapters::codex_output::{message_in, prompt_in};
use crate::agent_status::adapters::SampleView;
use crate::agent_status::codex_context::{codex_command, codex_process};
use crate::agent_status::events::AgentEventView;
use crate::numbers::{
    decimal_of, i32_of, is_decimal_digit, law_decimal_reads_back, lemma_decimal_digits,
    signed_decimal_of,
};
use crate::text::{first_chars, law_trimmed_is_stable, law_trimming_undoes_padding, trimmed};

verus! {

/// A task that starts and works.
pub open spec fn begins_work() -> Seq<AgentEventView> {
    seq![
        AgentEventView::TaskStarted { provider: "codex"@ },
        AgentEventView::TaskOutput { provider: "codex"@ },
    ]
}

proof fn lemma_variables_differ()
    ensures
        "kaku_last_cmd"@ != "WEZTERM_PROG"@,
        "kaku_last_cmd"@ != "kaku_last_exit_code"@,
        "WEZTERM_PROG"@ != "kaku_last_exit_code"@,
{
    reveal_strlit("kaku_last_cmd");
    reveal_strlit("WEZTERM_PROG");
    reveal_strlit("kaku_last_exit_code");
    assert("kaku_last_cmd"@.len() == 13);
    assert("WEZTERM_PROG"@.len() == 12);
    assert("kaku_last_exit_code"@.len() == 19);
}

/// A pane of which nothing is known has no command, no task, no turn and no awaited approval.
pub proof fn law_new_panes_are_quiet(panes: Map<Seq<char>, PaneView>, key: Seq<char>)
    requires
        !panes.dom().contains(key),
    ensures
        ({
            let pane = pane_at(panes, key);
            &&& pane.last_command is None
            &&& pane.last_exit_signature is None
            &&& pane.last_app_server_signature is None
            &&& !pane.fallback_active
            &&& !pane.fallback_hard_context
            &&& !pane.approval_prompt_visible
            &&& !pane.app_server_turn_active
            &&& !pane.app_server_signal_seen
        }),
{
}

/// A shell command that runs Codex is reported as a task that starts and works, and any other
/// command as nothing. Either way it is the pane's command from then on, and what was known of
/// messages before is forgotten. A blank command changes nothing.
pub proof fn law_commands_start_tasks(
    pane: PaneView,
    command: Seq<char>,
    vars: Map<Seq<char>, Seq<char>>,
)
    ensures
        ({
            let step = variable_step(pane, "kaku_last_cmd"@, command, vars);
            let name = trimmed(command);
            &&& name.len() == 0 ==> step.pane == pane && step.events.len() == 0
            &&& name.len() > 0 ==> {
                &&& step.events == if codex_command(name) {
                    begins_work()
                } else {
                    Seq::empty()
                }
                &&& step.pane.fallback_active == codex_command(name)
                &&& step.pane.fallback_hard_context == codex_command(name)
                &&& step.pane.last_command == Some(name)
                &&& pane.command_generation < u64::MAX ==> step.pane.command_generation
                    == pane.command_generation + 1
                &&& step.pane.last_app_server_signature is None
                &&& !step.pane.app_server_turn_active
                &&& !step.pane.app_server_signal_seen
                &&& step.pane.approval_prompt_visible == pane.approval_prompt_visible
                &&& step.pane.last_exit_signature == pane.last_exit_signature
            }
        }),
{
    lemma_variables_differ();
}

proof fn lemma_decimals_are_trimmed(n: int)
    ensures
        trimmed(signed_decimal_of(n)) == signed_decimal_of(n),
{
    reveal_strlit("-");
    let text = signed_decimal_of(n);
    let digits = decimal_of(
        if n < 0 {
            (-n) as nat
        } else {
            n as nat
        },
    );
    lemma_decimal_digits(
        if n < 0 {
            (-n) as nat
        } else {
            n as nat
        },
    );
    assert(is_decimal_digit(digits[0]));
    assert(is_decimal_digit(digits[digits.len() - 1]));
    assert(text.last() == digits.last());
    assert(n < 0 ==> text[0] == '-');
    assert(n >= 0 ==> text[0] == digits[0]);
    law_trimming_undoes_padding(Seq::empty(), text, Seq::empty());
    assert(Seq::<char>::empty() + text + Seq::<char>::empty() =~= text);
}

/// The end of a Codex command is reported once: as a task that completed where the exit code is
/// zero, and else as a task that failed, with the code in the reason. The task is over.
pub proof fn law_exit_codes_are_reported(
    pane: PaneView,
    code: i32,
    command: Seq<char>,
    vars: Map<Seq<char>, Seq<char>>,
)
    requires
        pane.last_command == Some(command),
        codex_command(command) || pane.fallback_active,
        !vars.dom().contains("kaku_last_cmd"@),
        pane.last_exit_signature != Some(
            exit_signature(pane.command_generation, command, code),
        ),
    ensures
        ({
            let step = variable_step(
                pane,
                "kaku_last_exit_code"@,
                signed_decimal_of(code as int),
                vars,
            );
            &&& code == 0 ==> step.events == seq![
                AgentEventView::TaskCompleted { provider: "codex"@ },
            ]
            &&& code != 0 ==> step.events == seq![
                AgentEventView::TaskFailed {
                    provider: "codex"@,
                    reason: Some("codex exited with status "@ + signed_decimal_of(code as int)),
                },
            ]
            &&& !step.pane.fallback_active
            &&& !step.pane.fallback_hard_context
            &&& !step.pane.app_server_turn_active
            &&& step.pane.last_exit_signature is Some
        }),
{
    lemma_variables_differ();
    law_decimal_reads_back(code as int);
    lemma_decimals_are_trimmed(code as int);
}

/// A command that the shell names together with an exit code decides whether the code is reported:
/// one that does not run Codex is not, unless a task is under way.
pub proof fn law_other_exits_are_silent(
    pane: PaneView,
    value: Seq<char>,
    vars: Map<Seq<char>, Seq<char>>,
)
    requires
        !pane.fallback_active,
        vars.dom().contains("kaku_last_cmd"@),
        trimmed(vars["kaku_last_cmd"@]).len() > 0,
        !codex_command(vars["kaku_last_cmd"@]),
    ensures
        variable_step(pane, "kaku_last_exit_code"@, value, vars) == (Step {
            pane,
            events: Seq::empty(),
        }),
{
    lemma_variables_differ();
}

/// A text that is no exit code is passed over.
pub proof fn law_exit_codes_are_numbers(
    pane: PaneView,
    value: Seq<char>,
    vars: Map<Seq<char>, Seq<char>>,
)
    requires
        i32_of(trimmed(value)) is None,
    ensures
        variable_step(pane, "kaku_last_exit_code"@, value, vars) == (Step {
            pane,
            events: Seq::empty(),
        }),
{
    lemma_variables_differ();
}

/// A pane whose program is gone ends the task under way: the last thing reported is that it
/// completed, after the awaited approval, which counts as granted. Without a task nothing happens.
pub proof fn law_no_program_ends_the_task(
    pane: PaneView,
    program: Seq<char>,
    vars: Map<Seq<char>, Seq<char>>,
)
    requires
        trimmed(program).len() == 0,
    ensures
        ({
            let step = variable_step(pane, "WEZTERM_PROG"@, program, vars);
            &&& pane.fallback_active ==> {
                &&& step.events == settled(pane, true).push(
                    AgentEventView::TaskCompleted { provider: "codex"@ },
                )
                &&& !step.pane.fallback_active
                &&& !step.pane.app_server_turn_active
                &&& !step.pane.approval_prompt_visible
            }
            &&& !pane.fallback_active ==> step.pane == pane && step.events.len() == 0
        }),
{
    lemma_variables_differ();
}

/// A program that a pane names does what a shell command of that name does, unless the shell names
/// its commands itself; in that case only the pane's command changes, and nothing is reported.
pub proof fn law_programs_stand_for_commands(
    pane: PaneView,
    program: Seq<char>,
    vars: Map<Seq<char>, Seq<char>>,
)
    requires
        trimmed(program).len() > 0,
    ensures
        ({
            let step = variable_step(pane, "WEZTERM_PROG"@, program, vars);
            let named = vars.dom().contains("kaku_last_cmd"@) && trimmed(
                vars["kaku_last_cmd"@],
            ).len() > 0;
            &&& !named ==> step == variable_step(pane, "kaku_last_cmd"@, program, vars)
            &&& named ==> step == (Step {
                pane: PaneView { last_command: Some(trimmed(program)), ..pane },
                events: Seq::empty(),
            })
        }),
{
    lemma_variables_differ();
    law_trimmed_is_stable(program);
}

/// Any other variable changes and reports nothing.
pub proof fn law_other_variables_are_passed_over(
    pane: PaneView,
    name: Seq<char>,
    value: Seq<char>,
    vars: Map<Seq<char>, Seq<char>>,
)
    requires
        name != "kaku_last_cmd"@,
        name != "WEZTERM_PROG"@,
        name != "kaku_last_exit_code"@,
    ensures
        variable_step(pane, name, value, vars) == (Step { pane, events: Seq::empty() }),
{
}

/// An approval prompt in a pane's text awaits an approval, with the prompt as its detail. A task
/// that was not under way is reported first as one that starts and works; last comes the approval
/// that is wanted, unless it was awaited with the same detail already.
pub proof fn law_prompts_ask(pane: PaneView, sample: SampleView, prompt: Seq<char>)
    requires
        !pane.app_server_signal_seen,
        message_in(sample.tail_text) is None,
        prompt_in(sample.tail_text) == Some(prompt),
        trimmed(prompt).len() > 0,
    ensures
        ({
            let step = output_step(pane, sample);
            let detail = Some(first_chars(trimmed(prompt), 160));
            let opening = if pane.fallback_active {
                Seq::empty()
            } else {
                begins_work()
            };
            &&& step.pane.fallback_active
            &&& step.pane.approval_prompt_visible
            &&& step.pane.approval_prompt_detail == detail
            &&& pane.approval_prompt_visible && pane.approval_prompt_detail == detail ==> step.events
                == opening
            &&& !(pane.approval_prompt_visible && pane.approval_prompt_detail == detail)
                ==> step.events == opening.push(
                AgentEventView::ApprovalRequired { provider: "codex"@, detail },
            )
        }),
{
    let step = output_step(pane, sample);
    let detail = Some(first_chars(trimmed(prompt), 160));
    let opening = if pane.fallback_active {
        Seq::empty()
    } else {
        begins_work()
    };
    if pane.approval_prompt_visible && pane.approval_prompt_detail == detail {
        assert(step.events =~= opening);
    } else {
        assert(step.events =~= opening.push(
            AgentEventView::ApprovalRequired { provider: "codex"@, detail },
        ));
    }
}

/// The sample is of a pane that runs Codex: its command does, or its process is Codex.
pub open spec fn shows_codex(pane: PaneView, sample: SampleView) -> bool {
    ||| (sample.current_command matches Some(command) && trimmed(command).len() > 0
        && codex_command(trimmed(command)))
    ||| (sample.current_command is None && pane.last_command is Some && codex_command(
        pane.last_command->0,
    ))
    ||| (sample.foreground_process_name is Some && codex_process(
        sample.foreground_process_name->0,
    ))
}

/// Text without a prompt from a pane that runs Codex: where no task was under way, one that starts
/// and works; where an approval was awaited, that it was granted; and else that the task works.
/// Nothing is awaited then, and the task is under way.
pub proof fn law_running_codex_works(pane: PaneView, sample: SampleView)
    requires
        !pane.app_server_signal_seen,
        message_in(sample.tail_text) is None,
        prompt_in(sample.tail_text) is None,
        shows_codex(pane, sample),
    ensures
        ({
            let step = output_step(pane, sample);
            &&& !pane.fallback_active ==> step.events == begins_work() + settled(pane, true)
            &&& pane.fallback_active && pane.approval_prompt_visible ==> step.events == settled(
                pane,
                true,
            )
            &&& pane.fallback_active && !pane.approval_prompt_visible ==> step.events == seq![
                AgentEventView::TaskOutput { provider: "codex"@ },
            ]
            &&& step.pane.fallback_active
            &&& step.pane.fallback_hard_context
            &&& !step.pane.approval_prompt_visible
        }),
{
    let step = output_step(pane, sample);
    if !pane.fallback_active {
        assert(step.events =~= begins_work() + settled(pane, true));
    } else if pane.approval_prompt_visible {
        assert(step.events =~= settled(pane, true));
    }
}

/// A task that Codex was seen to run ends when the pane runs another command, or another process,
/// and shows no prompt: the last thing reported is that it completed, after the awaited approval,
/// which counts as granted.
pub proof fn law_another_command_ends_the_task(
    pane: PaneView,
    sample: SampleView,
    command: Seq<char>,
)
    requires
        !pane.app_server_signal_seen,
        message_in(sample.tail_text) is None,
        prompt_in(sample.tail_text) is None,
        pane.fallback_active,
        pane.fallback_hard_context,
        sample.current_command == Some(command),
        trimmed(command).len() > 0,
        !codex_command(trimmed(command)),
        sample.foreground_process_name matches Some(name) ==> !codex_process(name),
    ensures
        ({
            let step = output_step(pane, sample);
            &&& step.events == settled(pane, true).push(
                AgentEventView::TaskCompleted { provider: "codex"@ },
            )
            &&& !step.pane.fallback_active
            &&& !step.pane.fallback_hard_context
            &&& !step.pane.approval_prompt_visible
        }),
{
}

/// Text without a prompt from a pane that has no task, awaits no approval and does not run Codex
/// changes and reports nothing.
pub proof fn law_other_text_is_passed_over(pane: PaneView, sample: SampleView)
    requires
        message_in(sample.tail_text) is None,
        prompt_in(sample.tail_text) is None,
        !pane.fallback_active,
        !pane.approval_prompt_visible,
        sample.current_command matches Some(command) && trimmed(command).len() > 0
            && !codex_command(trimmed(command)),
        sample.foreground_process_name matches Some(name) ==> !codex_process(name),
    ensures
        output_step(pane, sample) == (Step { pane, events: Seq::empty() }),
{
}

} // verus!
