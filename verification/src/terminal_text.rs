//! Terminal output as plain text: escape sequences taken out.
use vstd::prelude::*;

use crate::text::{chars_of, code_point, lacks};

verus! {

/// The escape character that opens a control sequence.
pub const ESCAPE: char = '\u{1b}';

/// The bell, which ends an operating-system command.
pub const BELL: char = '\u{7}';

/// How many bytes a character takes in UTF-8.
pub open spec fn utf8_length(c: char) -> nat {
    if (c as int) < 0x80 {
        1
    } else if (c as int) < 0x800 {
        2
    } else if (c as int) < 0x10000 {
        3
    } else {
        4
    }
}

/// `count` replacement characters.
pub open spec fn replacements(count: nat) -> Seq<char> {
    Seq::new(count, |i: int| '\u{fffd}')
}

/// Where a control sequence (`ESC [`) whose body begins at `from` is over: past the first character
/// from `@` to `~`, or at the end.
pub open spec fn control_end(s: Seq<char>, from: int) -> int
    decreases s.len() - from,
{
    if from < 0 || from >= s.len() {
        s.len() as int
    } else if 0x40 <= s[from] as int <= 0x7e {
        from + 1
    } else {
        control_end(s, from + 1)
    }
}

/// Where an operating-system command (`ESC ]`) whose body begins at `from` is over: past the first
/// bell or `ESC \`, or at the end.
pub open spec fn command_end(s: Seq<char>, from: int) -> int
    decreases s.len() - from,
{
    if from < 0 || from >= s.len() {
        s.len() as int
    } else if s[from] == BELL {
        from + 1
    } else if s[from] == ESCAPE && from + 1 < s.len() && s[from + 1] == '\\' {
        from + 2
    } else {
        command_end(s, from + 1)
    }
}

/// A sequence's end lies past its beginning and within the text.
pub proof fn lemma_ends(s: Seq<char>, from: int)
    requires
        0 <= from <= s.len(),
    ensures
        from <= control_end(s, from) <= s.len(),
        from <= command_end(s, from) <= s.len(),
    decreases s.len() - from,
{
    if from < s.len() {
        lemma_ends(s, from + 1);
    }
}

/// The text of `s` from `from` on without escape sequences. Besides control sequences and
/// operating-system commands, an escape takes one byte with it: what is left of a longer character
/// is shown as replacement characters. An escape at the very end is dropped.
pub open spec fn plain_from(s: Seq<char>, from: int) -> Seq<char>
    decreases s.len() - from,
{
    if from < 0 || from >= s.len() {
        Seq::empty()
    } else if s[from] != ESCAPE {
        seq![s[from]] + plain_from(s, from + 1)
    } else if from + 1 >= s.len() {
        Seq::empty()
    } else if s[from + 1] == '[' {
        proof {
            lemma_ends(s, from + 2);
        }
        plain_from(s, control_end(s, from + 2))
    } else if s[from + 1] == ']' {
        proof {
            lemma_ends(s, from + 2);
        }
        plain_from(s, command_end(s, from + 2))
    } else {
        replacements((utf8_length(s[from + 1]) - 1) as nat) + plain_from(s, from + 2)
    }
}

/// `s` without escape sequences.
pub open spec fn plain_text(s: Seq<char>) -> Seq<char> {
    plain_from(s, 0)
}

/// How many bytes of a character follow its first one in UTF-8.
fn further_bytes(c: char) -> (r: usize)
    ensures
        r == utf8_length(c) - 1,
{
    let n: u32 = code_point(c);
    if n < 0x80 {
        0
    } else if n < 0x800 {
        1
    } else if n < 0x10000 {
        2
    } else {
        3
    }
}

/// `input` without escape sequences.
pub fn strip_ansi_control(input: &str) -> (r: String)
    ensures
        r@ == plain_text(input@),
{
    let chars = chars_of(input);
    let total: usize = chars.len();
    let mut out = String::new();
    let mut idx: usize = 0;
    assert(out@ + plain_from(chars@, 0) =~= plain_text(input@));
    while idx < total
        invariant
            idx <= total,
            total == chars@.len(),
            out@ + plain_from(chars@, idx as int) == plain_text(input@),
        decreases total - idx,
    {
        let ghost before = out@;
        let c = chars[idx];
        if c != ESCAPE {
            out.push(c);
            assert(before + (seq![c] + plain_from(chars@, idx + 1)) =~= before.push(c) + plain_from(
                chars@,
                idx + 1,
            ));
            idx = idx + 1;
            continue;
        }
        if total - idx == 1 {
            idx = total;
            continue;
        }
        let kind = chars[idx + 1];
        let ghost start = idx + 2;
        idx = idx + 2;
        proof {
            lemma_ends(chars@, start);
        }
        if kind == '[' {
            let mut done = false;
            while idx < total && !done
                invariant
                    start <= idx <= total,
                    total == chars@.len(),
                    control_end(chars@, start) == if done {
                        idx as int
                    } else {
                        control_end(chars@, idx as int)
                    },
                decreases total - idx,
            {
                let n: u32 = code_point(chars[idx]);
                done = 0x40 <= n && n <= 0x7e;
                idx = idx + 1;
            }
            assert(idx == control_end(chars@, start));
        } else if kind == ']' {
            let mut done = false;
            while idx < total && !done
                invariant
                    start <= idx <= total,
                    total == chars@.len(),
                    command_end(chars@, start) == if done {
                        idx as int
                    } else {
                        command_end(chars@, idx as int)
                    },
                decreases total - idx,
            {
                if chars[idx] == BELL {
                    idx = idx + 1;
                    done = true;
                } else if chars[idx] == ESCAPE && total - idx > 1 && chars[idx + 1] == '\\' {
                    idx = idx + 2;
                    done = true;
                } else {
                    idx = idx + 1;
                }
            }
            assert(idx == command_end(chars@, start));
        } else {
            let extra: usize = further_bytes(kind);
            let mut i: usize = 0;
            while i < extra
                invariant
                    i <= extra,
                    out@ == before + replacements(i as nat),
                decreases extra - i,
            {
                out.push('\u{fffd}');
                i = i + 1;
                assert(before + replacements(i as nat) =~= (before + replacements(
                    (i - 1) as nat,
                )).push('\u{fffd}'));
            }
            assert(before + (replacements(extra as nat) + plain_from(chars@, start)) =~= (before
                + replacements(extra as nat)) + plain_from(chars@, start));
        }
    }
    assert(out@ + Seq::<char>::empty() =~= out@);
    out
}

/// Plain text holds no escape character.
pub proof fn law_plain_text_has_no_escape(s: Seq<char>)
    ensures
        forall|i: int| 0 <= i < plain_text(s).len() ==> #[trigger] plain_text(s)[i] != ESCAPE,
{
    lemma_plain_from_has_no_escape(s, 0);
}

proof fn lemma_plain_from_has_no_escape(s: Seq<char>, from: int)
    requires
        0 <= from <= s.len(),
    ensures
        forall|i: int| 0 <= i < plain_from(s, from).len() ==> #[trigger] plain_from(s, from)[i]
            != ESCAPE,
    decreases s.len() - from,
{
    if from < s.len() {
        if s[from] != ESCAPE {
            lemma_plain_from_has_no_escape(s, from + 1);
            let rest = plain_from(s, from + 1);
            assert forall|i: int| 0 <= i < plain_from(s, from).len() implies #[trigger] plain_from(
                s,
                from,
            )[i] != ESCAPE by {
                if i > 0 {
                    assert(plain_from(s, from)[i] == rest[i - 1]);
                }
            }
        } else if from + 1 < s.len() {
            lemma_ends(s, from + 2);
            if s[from + 1] == '[' {
                lemma_plain_from_has_no_escape(s, control_end(s, from + 2));
                assert(plain_from(s, from) == plain_from(s, control_end(s, from + 2)));
            } else if s[from + 1] == ']' {
                lemma_plain_from_has_no_escape(s, command_end(s, from + 2));
                assert(plain_from(s, from) == plain_from(s, command_end(s, from + 2)));
            } else {
                lemma_plain_from_has_no_escape(s, from + 2);
                let extra = replacements((utf8_length(s[from + 1]) - 1) as nat);
                let rest = plain_from(s, from + 2);
                assert forall|i: int| 0 <= i < plain_from(s, from).len() implies #[trigger] plain_from(
                    s,
                    from,
                )[i] != ESCAPE by {
                    if i >= extra.len() {
                        assert(plain_from(s, from)[i] == rest[i - extra.len()]);
                    } else {
                        assert(plain_from(s, from)[i] == extra[i]);
                    }
                }
            }
        }
    }
}

/// Taking escape sequences out adds nothing but replacement characters.
pub proof fn law_plain_text_adds_nothing(s: Seq<char>, c: char)
    requires
        lacks(s, c),
        c != '\u{fffd}',
    ensures
        lacks(plain_text(s), c),
{
    lemma_plain_from_lacks(s, 0, c);
}

proof fn lemma_plain_from_lacks(s: Seq<char>, from: int, c: char)
    requires
        0 <= from <= s.len(),
        lacks(s, c),
        c != '\u{fffd}',
    ensures
        lacks(plain_from(s, from), c),
    decreases s.len() - from,
{
    if from < s.len() {
        if s[from] != ESCAPE {
            lemma_plain_from_lacks(s, from + 1, c);
            let rest = plain_from(s, from + 1);
            assert forall|i: int| 0 <= i < plain_from(s, from).len() implies #[trigger] plain_from(
                s,
                from,
            )[i] != c by {
                if i > 0 {
                    assert(plain_from(s, from)[i] == rest[i - 1]);
                }
            }
        } else if from + 1 < s.len() {
            lemma_ends(s, from + 2);
            if s[from + 1] == '[' {
                lemma_plain_from_lacks(s, control_end(s, from + 2), c);
            } else if s[from + 1] == ']' {
                lemma_plain_from_lacks(s, command_end(s, from + 2), c);
            } else {
                lemma_plain_from_lacks(s, from + 2, c);
                let extra = replacements((utf8_length(s[from + 1]) - 1) as nat);
                let rest = plain_from(s, from + 2);
                assert forall|i: int|
                    0 <= i < plain_from(s, from).len() implies #[trigger] plain_from(s, from)[i]
                    != c by {
                    if i >= extra.len() {
                        assert(plain_from(s, from)[i] == rest[i - extra.len()]);
                    } else {
                        assert(plain_from(s, from)[i] == extra[i]);
                    }
                }
            }
        }
    }
}

/// Text without an escape character is its own plain text, so taking escape sequences out twice
/// is taking them out once.
pub proof fn law_plain_text_keeps_plain(s: Seq<char>)
    requires
        forall|i: int| 0 <= i < s.len() ==> s[i] != ESCAPE,
    ensures
        plain_text(s) == s,
{
    lemma_plain_from_keeps_plain(s, 0);
    assert(s.skip(0) =~= s);
}

proof fn lemma_plain_from_keeps_plain(s: Seq<char>, from: int)
    requires
        0 <= from <= s.len(),
        forall|i: int| 0 <= i < s.len() ==> s[i] != ESCAPE,
    ensures
        plain_from(s, from) == s.skip(from),
    decreases s.len() - from,
{
    if from < s.len() {
        lemma_plain_from_keeps_plain(s, from + 1);
        assert(seq![s[from]] + s.skip(from + 1) =~= s.skip(from));
    } else {
        assert(s.skip(from) =~= Seq::<char>::empty());
    }
}

proof fn lemma_ends_shift(before: Seq<char>, s: Seq<char>, from: int)
    requires
        0 <= from <= s.len(),
    ensures
        control_end(before + s, before.len() + from) == before.len() + control_end(s, from),
        command_end(before + s, before.len() + from) == before.len() + command_end(s, from),
    decreases s.len() - from,
{
    let whole = before + s;
    if from < s.len() {
        assert(whole[before.len() + from] == s[from]);
        lemma_ends_shift(before, s, from + 1);
        if from + 1 < s.len() {
            assert(whole[before.len() + from + 1] == s[from + 1]);
        }
    }
}

proof fn lemma_plain_shift(before: Seq<char>, s: Seq<char>, from: int)
    requires
        0 <= from <= s.len(),
    ensures
        plain_from(before + s, before.len() + from) == plain_from(s, from),
    decreases s.len() - from,
{
    let whole = before + s;
    if from < s.len() {
        assert(whole[before.len() + from] == s[from]);
        if s[from] != ESCAPE {
            lemma_plain_shift(before, s, from + 1);
        } else if from + 1 < s.len() {
            assert(whole[before.len() + from + 1] == s[from + 1]);
            lemma_ends(s, from + 2);
            lemma_ends_shift(before, s, from + 2);
            if s[from + 1] == '[' {
                lemma_plain_shift(before, s, control_end(s, from + 2));
            } else if s[from + 1] == ']' {
                lemma_plain_shift(before, s, command_end(s, from + 2));
            } else {
                lemma_plain_shift(before, s, from + 2);
            }
        }
    }
}

/// Text before the first escape sequence is kept as it is, and what follows is read on its own.
pub proof fn law_text_before_is_kept(before: Seq<char>, s: Seq<char>)
    requires
        lacks(before, ESCAPE),
    ensures
        plain_text(before + s) == before + plain_text(s),
    decreases before.len(),
{
    if before.len() == 0 {
        assert(before + s =~= s);
        assert(before + plain_text(s) =~= plain_text(s));
    } else {
        let first = seq![before[0]];
        let rest = before.skip(1);
        assert forall|i: int| 0 <= i < rest.len() implies #[trigger] rest[i] != ESCAPE by {
            assert(rest[i] == before[i + 1]);
        }
        law_text_before_is_kept(rest, s);
        lemma_plain_shift(first, rest + s, 0);
        assert(before + s =~= first + (rest + s));
        assert((first + (rest + s))[0] == before[0]);
        assert(before + plain_text(s) =~= first + (rest + plain_text(s)));
    }
}

proof fn lemma_control_end(parameters: Seq<char>, end: char, s: Seq<char>, from: int)
    requires
        0 <= from <= parameters.len(),
        forall|i: int|
            0 <= i < parameters.len() ==> !(0x40 <= #[trigger] parameters[i] as int <= 0x7e),
        0x40 <= end as int <= 0x7e,
    ensures
        control_end(parameters + seq![end] + s, from) == parameters.len() + 1,
    decreases parameters.len() - from,
{
    let whole = parameters + seq![end] + s;
    if from < parameters.len() {
        assert(whole[from] == parameters[from]);
        lemma_control_end(parameters, end, s, from + 1);
    } else {
        assert(whole[from] == end);
    }
}

/// A control sequence, which an escape and a bracket begin and a letter or sign ends, is left out
/// with its parameters.
pub proof fn law_control_sequences_are_left_out(
    parameters: Seq<char>,
    end: char,
    s: Seq<char>,
)
    requires
        forall|i: int|
            0 <= i < parameters.len() ==> !(0x40 <= #[trigger] parameters[i] as int <= 0x7e),
        0x40 <= end as int <= 0x7e,
    ensures
        plain_text(seq!['\u{1b}', '['] + parameters + seq![end] + s) == plain_text(s),
{
    let opening = seq!['\u{1b}', '['];
    let body = parameters + seq![end] + s;
    let whole = opening + parameters + seq![end] + s;
    assert(whole =~= opening + body);
    assert(whole[0] == ESCAPE && whole[1] == '[');
    lemma_control_end(parameters, end, s, 0);
    lemma_ends_shift(opening, body, 0);
    assert(control_end(whole, 2) == 2 + parameters.len() + 1);
    let before = opening + parameters + seq![end];
    assert(whole =~= before + s);
    lemma_plain_shift(before, s, 0);
}

proof fn lemma_command_end(command: Seq<char>, tail: Seq<char>, from: int)
    requires
        0 <= from <= command.len(),
        lacks(command, ESCAPE),
        lacks(command, BELL),
        tail.len() > 0,
        tail[0] == BELL || (tail[0] == ESCAPE && tail.len() > 1 && tail[1] == '\\'),
    ensures
        command_end(command + tail, from) == command.len() + if tail[0] == BELL {
            1int
        } else {
            2int
        },
    decreases command.len() - from,
{
    let whole = command + tail;
    if from < command.len() {
        assert(whole[from] == command[from]);
        lemma_command_end(command, tail, from + 1);
    } else {
        assert(whole[from] == tail[0]);
        if tail[0] != BELL {
            assert(whole[from + 1] == tail[1]);
        }
    }
}

/// A command of the operating system, which an escape and a closing bracket begin and a bell or an
/// escape and a backslash end, is left out with what it says.
pub proof fn law_system_commands_are_left_out(command: Seq<char>, s: Seq<char>)
    requires
        lacks(command, ESCAPE),
        lacks(command, BELL),
    ensures
        plain_text(seq!['\u{1b}', ']'] + command + seq!['\u{7}'] + s) == plain_text(s),
        plain_text(seq!['\u{1b}', ']'] + command + seq!['\u{1b}', '\\'] + s) == plain_text(s),
{
    let opening = seq!['\u{1b}', ']'];
    let bell = seq!['\u{7}'];
    let ended = seq!['\u{1b}', '\\'];
    let one = opening + command + bell + s;
    assert(one =~= opening + (command + (bell + s)));
    assert(one[0] == ESCAPE && one[1] == ']');
    assert((bell + s)[0] == BELL);
    lemma_command_end(command, bell + s, 0);
    lemma_ends_shift(opening, command + (bell + s), 0);
    assert(command_end(one, 2) == 2 + command.len() + 1);
    lemma_plain_shift(opening + command + bell, s, 0);
    assert(one =~= (opening + command + bell) + s);
    let two = opening + command + ended + s;
    assert(two =~= opening + (command + (ended + s)));
    assert(two[0] == ESCAPE && two[1] == ']');
    assert((ended + s)[0] == ESCAPE && (ended + s)[1] == '\\');
    lemma_command_end(command, ended + s, 0);
    lemma_ends_shift(opening, command + (ended + s), 0);
    assert(command_end(two, 2) == 2 + command.len() + 2);
    lemma_plain_shift(opening + command + ended, s, 0);
    assert(two =~= (opening + command + ended) + s);
}

/// Any other sequence is left out with the one character that follows the escape; a character of
/// several bytes leaves a replacement for each byte but its first. An escape at the end is left out.
pub proof fn law_other_sequences_are_left_out(c: char, s: Seq<char>)
    requires
        c != '[',
        c != ']',
    ensures
        ({
            let plain = plain_text(seq!['\u{1b}', c] + s);
            let rest = plain_text(s);
            let n = c as int;
            &&& n <= 0x7f ==> plain == rest
            &&& 0x80 <= n <= 0x7ff ==> plain == seq!['\u{fffd}'] + rest
            &&& 0x800 <= n <= 0xffff ==> plain == seq!['\u{fffd}', '\u{fffd}'] + rest
            &&& n >= 0x10000 ==> plain == seq!['\u{fffd}', '\u{fffd}', '\u{fffd}'] + rest
        }),
        plain_text(seq!['\u{1b}']).len() == 0,
{
    let opening = seq!['\u{1b}', c];
    let whole = opening + s;
    assert(whole[0] == ESCAPE && whole[1] == c);
    lemma_plain_shift(opening, s, 0);
    let n = c as int;
    let rest = plain_text(s);
    let marks = replacements((utf8_length(c) - 1) as nat);
    assert(plain_text(whole) == marks + rest);
    if n <= 0x7f {
        assert(marks + rest =~= rest);
    } else if n <= 0x7ff {
        assert(marks =~= seq!['\u{fffd}']);
    } else if n <= 0xffff {
        assert(marks =~= seq!['\u{fffd}', '\u{fffd}']);
    } else {
        assert(marks =~= seq!['\u{fffd}', '\u{fffd}', '\u{fffd}']);
    }
}

} // verus!
