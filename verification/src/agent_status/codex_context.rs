//! Recognising Codex from a command line or a process name.
use vstd::prelude::*;

use crate::text::{
    after_last, begins, contains, contains_text, last_segment, lowered, same_text,
    split_whitespace, starts_with, to_ascii_lowercase, trim, trimmed, words_of,
};

verus! {

/// A script runtime or package runner that is named before the program it runs.
pub open spec fn runtime_name(word: Seq<char>) -> bool {
    ||| word == "node"@
    ||| word == "nodejs"@
    ||| word == "bun"@
    ||| word == "deno"@
    ||| word == "pnpm"@
    ||| word == "pnpx"@
    ||| word == "npx"@
    ||| word == "yarn"@
    ||| word == "npm"@
}

/// A shell word that only changes how the command after it is run.
pub open spec fn shell_modifier(word: Seq<char>) -> bool {
    ||| word == "command"@
    ||| word == "builtin"@
    ||| word == "noglob"@
    ||| word == "nocorrect"@
    ||| word == "time"@
    ||| word == "env"@
}

/// An environment assignment such as `NAME=value`; a path that holds `=` is none.
pub open spec fn assignment(word: Seq<char>) -> bool {
    contains(word, "="@) && !begins(word, "/"@) && !begins(word, "./"@)
}

/// A word that stands before the program without being it.
pub open spec fn before_program(word: Seq<char>) -> bool {
    assignment(word) || runtime_name(word) || shell_modifier(word) || begins(word, "-"@)
}

/// A runtime is named among the words; an assignment never counts as one.
pub open spec fn names_runtime(word: Seq<char>) -> bool {
    !assignment(word) && runtime_name(word)
}

/// The program that `words` run is Codex: the first word that is not one of those that may stand
/// before a program names `codex`, or, after a runtime, a program whose name begins with it.
pub open spec fn runs_codex(words: Seq<Seq<char>>, after_runtime: bool) -> bool
    decreases words.len(),
{
    if words.len() == 0 {
        false
    } else if before_program(words[0]) {
        runs_codex(words.skip(1), after_runtime || names_runtime(words[0]))
    } else {
        let program = after_last(words[0], '/');
        program == "codex"@ || (after_runtime && begins(program, "codex"@))
    }
}

/// A command line that runs Codex.
pub open spec fn codex_command(command: Seq<char>) -> bool {
    runs_codex(words_of(trimmed(command)), false)
}

/// A process that is Codex: its name's last path segment is `codex`, or it is a script runtime and
/// its full name mentions Codex.
pub open spec fn codex_process(name: Seq<char>) -> bool {
    let leaf = trimmed(after_last(name, '/'));
    leaf == "codex"@ || ((leaf == "node"@ || leaf == "nodejs"@ || leaf == "bun"@ || leaf
        == "deno"@) && contains(lowered(name), "codex"@))
}

fn is_assignment(word: &str) -> (r: bool)
    ensures
        r == assignment(word@),
{
    contains_text(word, "=") && !starts_with(word, "/") && !starts_with(word, "./")
}

fn is_runtime_name(word: &str) -> (r: bool)
    ensures
        r == runtime_name(word@),
{
    same_text(word, "node") || same_text(word, "nodejs") || same_text(word, "bun") || same_text(
        word,
        "deno",
    ) || same_text(word, "pnpm") || same_text(word, "pnpx") || same_text(word, "npx") || same_text(
        word,
        "yarn",
    ) || same_text(word, "npm")
}

fn is_shell_modifier(word: &str) -> (r: bool)
    ensures
        r == shell_modifier(word@),
{
    same_text(word, "command") || same_text(word, "builtin") || same_text(word, "noglob")
        || same_text(word, "nocorrect") || same_text(word, "time") || same_text(word, "env")
}

/// Whether the command line runs Codex.
pub fn is_codex_like_command(command: &str) -> (r: bool)
    ensures
        r == codex_command(command@),
{
    let words = split_whitespace(trim(command).as_str());
    let ghost all = words.deep_view();
    let mut saw_runtime_prefix = false;
    let mut i: usize = 0;
    assert(all.skip(0) =~= all);
    while i < words.len()
        invariant
            i <= words@.len(),
            all == words.deep_view(),
            codex_command(command@) == runs_codex(all.skip(i as int), saw_runtime_prefix),
        decreases words@.len() - i,
    {
        let word = words[i].as_str();
        assert(all.skip(i as int)[0] == word@);
        assert(all.skip(i as int).skip(1) =~= all.skip(i + 1));
        i = i + 1;
        if is_assignment(word) {
            continue;
        }
        if is_runtime_name(word) {
            saw_runtime_prefix = true;
            continue;
        }
        if is_shell_modifier(word) || starts_with(word, "-") {
            continue;
        }
        let executable = last_segment(word, '/');
        if same_text(executable.as_str(), "codex") {
            return true;
        }
        return saw_runtime_prefix && starts_with(executable.as_str(), "codex");
    }
    false
}

/// Whether the process is Codex.
pub fn is_codex_process_name(process_name: &str) -> (r: bool)
    ensures
        r == codex_process(process_name@),
{
    let leaf = trim(last_segment(process_name, '/').as_str());
    let leaf = leaf.as_str();
    if same_text(leaf, "codex") {
        return true;
    }
    if same_text(leaf, "node") || same_text(leaf, "nodejs") || same_text(leaf, "bun") || same_text(
        leaf,
        "deno",
    ) {
        let lower = to_ascii_lowercase(process_name);
        return contains_text(lower.as_str(), "codex");
    }
    false
}

/// The word stands before a program without being it: an environment assignment, a runtime, a shell
/// word or an option.
pub open spec fn leads_to_program(word: Seq<char>) -> bool {
    ||| (contains(word, "="@) && !begins(word, "/"@) && !begins(word, "./"@))
    ||| begins(word, "-"@)
    ||| seq!["command"@, "builtin"@, "noglob"@, "nocorrect"@, "time"@, "env"@].contains(word)
    ||| names_a_runtime(word)
}

/// The word names a runtime or a package runner.
pub open spec fn names_a_runtime(word: Seq<char>) -> bool {
    seq![
        "node"@,
        "nodejs"@,
        "bun"@,
        "deno"@,
        "pnpm"@,
        "pnpx"@,
        "npx"@,
        "yarn"@,
        "npm"@,
    ].contains(word)
}

proof fn lemma_leading_words(word: Seq<char>)
    ensures
        leads_to_program(word) == before_program(word),
        names_a_runtime(word) == runtime_name(word),
{
    let runtimes = seq![
        "node"@,
        "nodejs"@,
        "bun"@,
        "deno"@,
        "pnpm"@,
        "pnpx"@,
        "npx"@,
        "yarn"@,
        "npm"@,
    ];
    let modifiers = seq!["command"@, "builtin"@, "noglob"@, "nocorrect"@, "time"@, "env"@];
    assert(runtimes[0] == "node"@);
    assert(runtimes[1] == "nodejs"@);
    assert(runtimes[2] == "bun"@);
    assert(runtimes[3] == "deno"@);
    assert(runtimes[4] == "pnpm"@);
    assert(runtimes[5] == "pnpx"@);
    assert(runtimes[6] == "npx"@);
    assert(runtimes[7] == "yarn"@);
    assert(runtimes[8] == "npm"@);
    assert(modifiers[0] == "command"@);
    assert(modifiers[1] == "builtin"@);
    assert(modifiers[2] == "noglob"@);
    assert(modifiers[3] == "nocorrect"@);
    assert(modifiers[4] == "time"@);
    assert(modifiers[5] == "env"@);
}

proof fn lemma_program_decides(words: Seq<Seq<char>>, k: int, after_runtime: bool)
    requires
        0 <= k < words.len(),
        forall|i: int| 0 <= i < k ==> before_program(#[trigger] words[i]),
        !before_program(words[k]),
    ensures
        runs_codex(words, after_runtime) == (after_last(words[k], '/') == "codex"@ || ((
        after_runtime || exists|i: int| 0 <= i < k && names_runtime(#[trigger] words[i]))
            && begins(after_last(words[k], '/'), "codex"@))),
    decreases k,
{
    if k > 0 {
        let rest = words.skip(1);
        assert(rest[k - 1] == words[k]);
        assert forall|i: int| 0 <= i < k - 1 implies before_program(#[trigger] rest[i]) by {
            assert(rest[i] == words[i + 1]);
        }
        assert(before_program(words[0]));
        let runtime_now = after_runtime || names_runtime(words[0]);
        lemma_program_decides(rest, k - 1, runtime_now);
        if exists|i: int| 0 <= i < k && names_runtime(#[trigger] words[i]) {
            let i = choose|i: int| 0 <= i < k && names_runtime(#[trigger] words[i]);
            if i > 0 {
                assert(rest[i - 1] == words[i]);
            }
        }
        if exists|i: int| 0 <= i < k - 1 && names_runtime(#[trigger] rest[i]) {
            let i = choose|i: int| 0 <= i < k - 1 && names_runtime(#[trigger] rest[i]);
            assert(words[i + 1] == rest[i]);
        }
    }
}

/// The first word that names a program decides whether a command runs Codex: its last path segment
/// is `codex`, or begins with it and a runtime stands before it. What stands before it, assignments,
/// runtimes, shell words and options, and what stands behind it changes nothing else.
pub proof fn law_the_program_decides(command: Seq<char>, k: int)
    requires
        0 <= k < words_of(trimmed(command)).len(),
        forall|i: int|
            0 <= i < k ==> leads_to_program(#[trigger] words_of(trimmed(command))[i]),
        !leads_to_program(words_of(trimmed(command))[k]),
    ensures
        ({
            let words = words_of(trimmed(command));
            let program = after_last(words[k], '/');
            let by_runtime = exists|i: int|
                0 <= i < k && names_a_runtime(#[trigger] words[i]) && !contains(words[i], "="@);
            &&& program == "codex"@ ==> codex_command(command)
            &&& by_runtime && begins(program, "codex"@) ==> codex_command(command)
            &&& !begins(program, "codex"@) ==> !codex_command(command)
            &&& (forall|i: int| 0 <= i < k ==> !names_a_runtime(#[trigger] words[i])) && program
                != "codex"@ ==> !codex_command(command)
        }),
{
    let words = words_of(trimmed(command));
    let program = after_last(words[k], '/');
    assert forall|i: int| 0 <= i < k implies before_program(#[trigger] words[i]) by {
        lemma_leading_words(words[i]);
    }
    lemma_leading_words(words[k]);
    lemma_program_decides(words, k, false);
    if exists|i: int|
        0 <= i < k && names_a_runtime(#[trigger] words[i]) && !contains(words[i], "="@) {
        let i = choose|i: int|
            0 <= i < k && names_a_runtime(#[trigger] words[i]) && !contains(words[i], "="@);
        lemma_leading_words(words[i]);
        assert(names_runtime(words[i]));
    }
    if forall|i: int| 0 <= i < k ==> !names_a_runtime(#[trigger] words[i]) {
        assert forall|i: int| 0 <= i < k implies !names_runtime(#[trigger] words[i]) by {
            lemma_leading_words(words[i]);
        }
    }
    if program == "codex"@ {
        assert(program.subrange(0, program.len() as int) =~= program);
    }
}

/// A command that names no program does not run Codex; in particular a blank one does not.
pub proof fn law_no_program_is_no_codex(command: Seq<char>)
    requires
        forall|i: int|
            0 <= i < words_of(trimmed(command)).len() ==> leads_to_program(
                #[trigger] words_of(trimmed(command))[i],
            ),
    ensures
        !codex_command(command),
{
    let words = words_of(trimmed(command));
    assert forall|i: int| 0 <= i < words.len() implies before_program(#[trigger] words[i]) by {
        lemma_leading_words(words[i]);
    }
    lemma_no_program(words, false);
}

proof fn lemma_no_program(words: Seq<Seq<char>>, after_runtime: bool)
    requires
        forall|i: int| 0 <= i < words.len() ==> before_program(#[trigger] words[i]),
    ensures
        !runs_codex(words, after_runtime),
    decreases words.len(),
{
    if words.len() > 0 {
        let rest = words.skip(1);
        assert forall|i: int| 0 <= i < rest.len() implies before_program(#[trigger] rest[i]) by {
            assert(rest[i] == words[i + 1]);
        }
        assert(before_program(words[0]));
        lemma_no_program(rest, after_runtime || names_runtime(words[0]));
    }
}

/// A process whose name ends in `codex`, behind any path, is Codex; a script runtime is where its
/// full name mentions Codex in any ASCII case; and no other process is.
pub proof fn law_codex_processes(name: Seq<char>)
    ensures
        ({
            let leaf = trimmed(after_last(name, '/'));
            let runtime = seq!["node"@, "nodejs"@, "bun"@, "deno"@].contains(leaf);
            &&& leaf == "codex"@ ==> codex_process(name)
            &&& runtime ==> codex_process(name) == (contains(lowered(name), "codex"@) || leaf
                == "codex"@)
            &&& leaf != "codex"@ && !runtime ==> !codex_process(name)
        }),
{
    let runtimes = seq!["node"@, "nodejs"@, "bun"@, "deno"@];
    assert(runtimes[0] == "node"@);
    assert(runtimes[1] == "nodejs"@);
    assert(runtimes[2] == "bun"@);
    assert(runtimes[3] == "deno"@);
}

} // verus!
