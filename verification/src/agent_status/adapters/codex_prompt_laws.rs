//! Which lines of a terminal are approval prompts, word by word.
use vstd::prelude::*;

use crate::agent_status::adapters::codex_output::asks_approval;
use crate::text::{contains, contains_any, lowered, lowered_char, occurs_at};

verus! {

/// The words are the texts of the patterns, in order.
spec fn spelled(words: Seq<Seq<char>>, patterns: Seq<&str>) -> bool {
    &&& words.len() == patterns.len()
    &&& forall|i: int| 0 <= i < words.len() ==> #[trigger] words[i] == patterns[i]@
}

proof fn lemma_word_is_found(
    s: Seq<char>,
    words: Seq<Seq<char>>,
    patterns: Seq<&str>,
    word: Seq<char>,
)
    requires
        spelled(words, patterns),
        words.contains(word),
        contains(s, word),
    ensures
        contains_any(s, patterns),
{
    let i = choose|i: int| 0 <= i < words.len() && words[i] == word;
    assert(words[i] == patterns[i]@);
}

proof fn lemma_no_word_is_found(s: Seq<char>, words: Seq<Seq<char>>, patterns: Seq<&str>)
    requires
        spelled(words, patterns),
        forall|i: int| 0 <= i < words.len() ==> !contains(s, #[trigger] words[i]),
    ensures
        !contains_any(s, patterns),
{
    assert forall|i: int| 0 <= i < patterns.len() implies !contains(
        s,
        #[trigger] patterns[i]@,
    ) by {
        assert(words[i] == patterns[i]@);
    }
}

/// None of the words stands in the text.
pub open spec fn holds_none(s: Seq<char>, words: Seq<Seq<char>>) -> bool {
    forall|i: int| 0 <= i < words.len() ==> !contains(s, #[trigger] words[i])
}

/// The line asks something, or offers an answer: one of the English answers, in any case, one of
/// the Chinese ones, or a question mark.
pub open spec fn offers_answer(line: Seq<char>, answer: Seq<char>) -> bool {
    ||| (seq![
        "[y/n]"@,
        "(y/n)"@,
        "[y/n"@,
        "(y/n"@,
        "yes/no"@,
        "press enter"@,
        "approve and continue"@,
        "approve once"@,
        "always allow"@,
        "deny"@,
        "reject"@,
    ].contains(answer) && contains(lowered(line), answer))
    ||| (seq!["允许一次"@, "总是允许"@, "拒绝"@].contains(answer) && contains(line, answer))
    ||| (seq!["?"@, "？"@].contains(answer) && contains(line, answer))
}

proof fn lemma_answer_is_found(line: Seq<char>, answer: Seq<char>)
    requires
        offers_answer(line, answer),
    ensures
        contains_any(
            lowered(line),
            seq![
                "[y/n]",
                "(y/n)",
                "[y/n",
                "(y/n",
                "yes/no",
                "press enter",
                "approve and continue",
                "approve once",
                "always allow",
                "deny",
                "reject",
            ],
        ) || contains_any(line, seq!["允许一次", "总是允许", "拒绝"]) || contains_any(
            line,
            seq!["?", "？"],
        ),
{
    let english = seq![
        "[y/n]"@,
        "(y/n)"@,
        "[y/n"@,
        "(y/n"@,
        "yes/no"@,
        "press enter"@,
        "approve and continue"@,
        "approve once"@,
        "always allow"@,
        "deny"@,
        "reject"@,
    ];
    let chinese = seq!["允许一次"@, "总是允许"@, "拒绝"@];
    let marks = seq!["?"@, "？"@];
    if english.contains(answer) && contains(lowered(line), answer) {
        lemma_word_is_found(
            lowered(line),
            english,
            seq![
                "[y/n]",
                "(y/n)",
                "[y/n",
                "(y/n",
                "yes/no",
                "press enter",
                "approve and continue",
                "approve once",
                "always allow",
                "deny",
                "reject",
            ],
            answer,
        );
    } else if chinese.contains(answer) && contains(line, answer) {
        lemma_word_is_found(line, chinese, seq!["允许一次", "总是允许", "拒绝"], answer);
    } else {
        lemma_word_is_found(line, marks, seq!["?", "？"], answer);
    }
}

proof fn lemma_not_empty(line: Seq<char>, answer: Seq<char>)
    requires
        offers_answer(line, answer),
    ensures
        line.len() > 0,
{
    reveal_strlit("[y/n]");
    reveal_strlit("(y/n)");
    reveal_strlit("[y/n");
    reveal_strlit("(y/n");
    reveal_strlit("yes/no");
    reveal_strlit("press enter");
    reveal_strlit("approve and continue");
    reveal_strlit("approve once");
    reveal_strlit("always allow");
    reveal_strlit("deny");
    reveal_strlit("reject");
    reveal_strlit("允许一次");
    reveal_strlit("总是允许");
    reveal_strlit("拒绝");
    reveal_strlit("?");
    reveal_strlit("？");
    assert(answer.len() > 0);
    assert(lowered(line).len() == line.len());
}

/// A line that speaks of approving, in any ASCII case, and asks or offers an answer is an approval
/// prompt, whatever else it says.
pub proof fn law_approve_words_ask(line: Seq<char>, word: Seq<char>, answer: Seq<char>)
    requires
        seq!["approve"@, "approval"@].contains(word),
        contains(lowered(line), word),
        offers_answer(line, answer),
    ensures
        asks_approval(line),
{
    lemma_answer_is_found(line, answer);
    lemma_not_empty(line, answer);
    lemma_word_is_found(
        lowered(line),
        seq!["approve"@, "approval"@],
        seq!["approve", "approval"],
        word,
    );
}

/// A line that speaks of confirming, allowing, permission, proceeding or continuing, in any ASCII
/// case, and asks or offers an answer is an approval prompt, whatever else it says.
pub proof fn law_confirm_words_ask(line: Seq<char>, word: Seq<char>, answer: Seq<char>)
    requires
        seq!["confirm"@, "allow"@, "permission"@, "proceed"@, "continue"@].contains(word),
        contains(lowered(line), word),
        offers_answer(line, answer),
    ensures
        asks_approval(line),
{
    lemma_answer_is_found(line, answer);
    lemma_not_empty(line, answer);
    lemma_word_is_found(
        lowered(line),
        seq!["confirm"@, "allow"@, "permission"@, "proceed"@, "continue"@],
        seq!["confirm", "allow", "permission", "proceed", "continue"],
        word,
    );
}

/// A line that speaks of approving, allowing, confirming or continuing in Chinese, and asks or
/// offers an answer is an approval prompt, whatever else it says.
pub proof fn law_chinese_words_ask(line: Seq<char>, word: Seq<char>, answer: Seq<char>)
    requires
        seq!["批准"@, "审批"@, "允许"@, "确认"@, "继续"@].contains(word),
        contains(line, word),
        offers_answer(line, answer),
    ensures
        asks_approval(line),
{
    lemma_answer_is_found(line, answer);
    lemma_not_empty(line, answer);
    if seq!["批准"@, "审批"@].contains(word) {
        lemma_word_is_found(line, seq!["批准"@, "审批"@], seq!["批准", "审批"], word);
    } else {
        let words = seq!["批准"@, "审批"@, "允许"@, "确认"@, "继续"@];
        let rest = seq!["允许"@, "确认"@, "继续"@];
        let i = choose|i: int| 0 <= i < words.len() && words[i] == word;
        assert(seq!["批准"@, "审批"@][0] == words[0]);
        assert(seq!["批准"@, "审批"@][1] == words[1]);
        assert(rest[i - 2] == word);
        lemma_word_is_found(line, rest, seq!["允许", "确认", "继续"], word);
    }
}

/// A question about a command, an action or a tool, in any ASCII case, is an approval prompt,
/// whatever else it says.
pub proof fn law_action_questions_ask(line: Seq<char>, word: Seq<char>, mark: Seq<char>)
    requires
        seq!["command"@, "action"@, "tool"@].contains(word),
        contains(lowered(line), word),
        seq!["?"@, "？"@].contains(mark),
        contains(line, mark),
    ensures
        asks_approval(line),
{
    assert(offers_answer(line, mark));
    lemma_not_empty(line, mark);
    lemma_word_is_found(line, seq!["?"@, "？"@], seq!["?", "？"], mark);
    lemma_word_is_found(
        lowered(line),
        seq!["command"@, "action"@, "tool"@],
        seq!["command", "action", "tool"],
        word,
    );
}

/// A line that neither asks nor offers an answer is no approval prompt, whatever it speaks of.
pub proof fn law_prompts_offer_an_answer(line: Seq<char>)
    requires
        holds_none(
            lowered(line),
            seq![
                "[y/n]"@,
                "(y/n)"@,
                "[y/n"@,
                "(y/n"@,
                "yes/no"@,
                "press enter"@,
                "approve and continue"@,
                "approve once"@,
                "always allow"@,
                "deny"@,
                "reject"@,
            ],
        ),
        holds_none(line, seq!["允许一次"@, "总是允许"@, "拒绝"@, "?"@, "？"@]),
    ensures
        !asks_approval(line),
{
    let english = seq![
        "[y/n]"@,
        "(y/n)"@,
        "[y/n"@,
        "(y/n"@,
        "yes/no"@,
        "press enter"@,
        "approve and continue"@,
        "approve once"@,
        "always allow"@,
        "deny"@,
        "reject"@,
    ];
    let others = seq!["允许一次"@, "总是允许"@, "拒绝"@, "?"@, "？"@];
    lemma_no_word_is_found(
        lowered(line),
        english,
        seq![
            "[y/n]",
            "(y/n)",
            "[y/n",
            "(y/n",
            "yes/no",
            "press enter",
            "approve and continue",
            "approve once",
            "always allow",
            "deny",
            "reject",
        ],
    );
    assert(!contains(lowered(line), english[6]));
    assert(!contains(lowered(line), english[7]));
    assert(!contains(lowered(line), english[8]));
    lemma_no_word_is_found(
        lowered(line),
        seq!["approve and continue"@, "always allow"@, "approve once"@],
        seq!["approve and continue", "always allow", "approve once"],
    );
    assert(!contains(line, others[0]));
    assert(!contains(line, others[1]));
    assert(!contains(line, others[2]));
    assert(!contains(line, others[3]));
    assert(!contains(line, others[4]));
    lemma_no_word_is_found(
        line,
        seq!["允许一次"@, "总是允许"@, "拒绝"@],
        seq!["允许一次", "总是允许", "拒绝"],
    );
    lemma_no_word_is_found(line, seq!["允许一次"@, "总是允许"@], seq!["允许一次", "总是允许"]);
    lemma_no_word_is_found(line, seq!["?"@, "？"@], seq!["?", "？"]);
}

/// A line that speaks of no approval, and of a command, an action or a tool in no question, is no
/// approval prompt, whatever answers it offers.
pub proof fn law_prompts_name_what_they_ask(line: Seq<char>)
    requires
        holds_none(
            lowered(line),
            seq![
                "approve"@,
                "approval"@,
                "confirm"@,
                "allow"@,
                "permission"@,
                "proceed"@,
                "continue"@,
            ],
        ),
        holds_none(line, seq!["批准"@, "审批"@, "允许"@, "确认"@, "继续"@]),
        holds_none(lowered(line), seq!["command"@, "action"@, "tool"@]) || holds_none(
            line,
            seq!["?"@, "？"@],
        ),
    ensures
        !asks_approval(line),
{
    let english = seq![
        "approve"@,
        "approval"@,
        "confirm"@,
        "allow"@,
        "permission"@,
        "proceed"@,
        "continue"@,
    ];
    let chinese = seq!["批准"@, "审批"@, "允许"@, "确认"@, "继续"@];
    assert(!contains(lowered(line), english[0]));
    assert(!contains(lowered(line), english[1]));
    assert(!contains(lowered(line), english[2]));
    assert(!contains(lowered(line), english[3]));
    assert(!contains(lowered(line), english[4]));
    assert(!contains(lowered(line), english[5]));
    assert(!contains(lowered(line), english[6]));
    assert(!contains(line, chinese[0]));
    assert(!contains(line, chinese[1]));
    assert(!contains(line, chinese[2]));
    assert(!contains(line, chinese[3]));
    assert(!contains(line, chinese[4]));
    lemma_no_word_is_found(
        lowered(line),
        seq!["approve"@, "approval"@],
        seq!["approve", "approval"],
    );
    lemma_no_word_is_found(
        lowered(line),
        seq!["confirm"@, "allow"@, "permission"@, "proceed"@, "continue"@],
        seq!["confirm", "allow", "permission", "proceed", "continue"],
    );
    lemma_no_word_is_found(line, seq!["批准"@, "审批"@], seq!["批准", "审批"]);
    lemma_no_word_is_found(line, seq!["允许"@, "确认"@, "继续"@], seq!["允许", "确认", "继续"]);
    if holds_none(line, seq!["?"@, "？"@]) {
        lemma_no_word_is_found(line, seq!["?"@, "？"@], seq!["?", "？"]);
    } else {
        lemma_no_word_is_found(
            lowered(line),
            seq!["command"@, "action"@, "tool"@],
            seq!["command", "action", "tool"],
        );
    }
}

/// No character of the text is an ASCII letter.
spec fn has_no_letter(s: Seq<char>) -> bool {
    forall|i: int|
        0 <= i < s.len() ==> !('A' <= #[trigger] s[i] <= 'Z') && !('a' <= s[i] <= 'z')
}

proof fn lemma_found_in_any_case(a: Seq<char>, b: Seq<char>, pattern: Seq<char>)
    requires
        lowered(a) == lowered(b),
        has_no_letter(pattern),
        contains(a, pattern),
    ensures
        contains(b, pattern),
{
    let at = choose|at: int| occurs_at(a, pattern, at);
    assert(a.len() == lowered(a).len());
    assert(b.len() == lowered(b).len());
    assert forall|i: int| 0 <= i < pattern.len() implies b[at + i] == pattern[i] by {
        assert(a.subrange(at, at + pattern.len())[i] == a[at + i]);
        assert(lowered(a)[at + i] == lowered_char(a[at + i]));
        assert(lowered(b)[at + i] == lowered_char(b[at + i]));
    }
    assert(b.subrange(at, at + pattern.len()) =~= pattern);
    assert(occurs_at(b, pattern, at));
}

proof fn lemma_any_in_any_case(a: Seq<char>, b: Seq<char>, patterns: Seq<&str>)
    requires
        lowered(a) == lowered(b),
        forall|i: int| 0 <= i < patterns.len() ==> has_no_letter(#[trigger] patterns[i]@),
    ensures
        contains_any(a, patterns) ==> contains_any(b, patterns),
{
    if contains_any(a, patterns) {
        let i = choose|i: int| 0 <= i < patterns.len() && contains(a, #[trigger] patterns[i]@);
        lemma_found_in_any_case(a, b, patterns[i]@);
    }
}

proof fn lemma_asks_in_any_case(a: Seq<char>, b: Seq<char>)
    requires
        lowered(a) == lowered(b),
    ensures
        asks_approval(a) ==> asks_approval(b),
{
    reveal_strlit("批准");
    reveal_strlit("审批");
    reveal_strlit("允许");
    reveal_strlit("确认");
    reveal_strlit("继续");
    reveal_strlit("允许一次");
    reveal_strlit("总是允许");
    reveal_strlit("拒绝");
    reveal_strlit("?");
    reveal_strlit("？");
    assert(a.len() == lowered(a).len());
    assert(b.len() == lowered(b).len());
    lemma_any_in_any_case(a, b, seq!["批准", "审批"]);
    lemma_any_in_any_case(a, b, seq!["允许", "确认", "继续"]);
    lemma_any_in_any_case(a, b, seq!["允许一次", "总是允许", "拒绝"]);
    lemma_any_in_any_case(a, b, seq!["允许一次", "总是允许"]);
    lemma_any_in_any_case(a, b, seq!["?", "？"]);
}

/// Two lines that differ only in the case of ASCII letters are both approval prompts, or neither.
pub proof fn law_prompts_ignore_case(a: Seq<char>, b: Seq<char>)
    requires
        lowered(a) == lowered(b),
    ensures
        asks_approval(a) == asks_approval(b),
{
    lemma_asks_in_any_case(a, b);
    lemma_asks_in_any_case(b, a);
}

} // verus!
