//! What holds of the functions on text.
use vstd::prelude::*;

use crate::text::{
    after_last, begins, contains, first_chars, joined_with, lacks, lemma_trimmed_start_shape,
    lemma_word_length, lines_of, lowered, lowered_char, next_position, occurs_at, trimmed_start,
    whitespace, without_prefixes, without_return, word_length, words_of,
};

verus! {

/// Blanks, tabs and the ends of lines are white space; letters, digits and signs of ASCII are not.
pub proof fn law_white_space(c: char)
    ensures
        whitespace(' ') && whitespace('\t') && whitespace('\n') && whitespace('\r'),
        0x21 <= c as int <= 0x7e ==> !whitespace(c),
{
}

/// Lowering changes the ASCII capitals, each to its small letter, and nothing else; lowering twice
/// is lowering once.
pub proof fn law_lowering(s: Seq<char>, i: int)
    requires
        0 <= i < s.len(),
    ensures
        lowered(s).len() == s.len(),
        'A' <= s[i] <= 'Z' ==> lowered(s)[i] as int - s[i] as int == 'a' as int - 'A' as int,
        !('A' <= s[i] <= 'Z') ==> lowered(s)[i] == s[i],
        lowered(lowered(s)) == lowered(s),
{
    assert forall|j: int| 0 <= j < s.len() implies lowered_char(lowered_char(s[j])) == lowered_char(
        s[j],
    ) by {}
    assert(lowered(lowered(s)) =~= lowered(s));
}

/// A text holds whatever it was put together around, and begins with what it was begun with.
pub proof fn law_parts_are_found(before: Seq<char>, part: Seq<char>, after: Seq<char>)
    ensures
        contains(before + part + after, part),
        begins(part + after, part),
{
    let whole = before + part + after;
    assert(whole.subrange(before.len() as int, before.len() as int + part.len() as int) =~= part);
    assert(occurs_at(whole, part, before.len() as int));
    assert((part + after).subrange(0, part.len() as int) =~= part);
}

/// A text that lacks a character of the pattern does not hold the pattern.
pub proof fn law_missing_parts_are_not_found(s: Seq<char>, part: Seq<char>, i: int)
    requires
        0 <= i < part.len(),
        lacks(s, part[i]),
    ensures
        !contains(s, part),
{
    if contains(s, part) {
        let at = choose|at: int| occurs_at(s, part, at);
        assert(s.subrange(at, at + part.len())[i] == s[at + i]);
    }
}

/// At most so many characters are left of a text, from its start.
pub proof fn law_first_characters(s: Seq<char>, count: nat)
    ensures
        first_chars(s, count).len() == if s.len() <= count {
            s.len()
        } else {
            count
        },
        begins(s, first_chars(s, count)),
{
    assert(s.subrange(0, first_chars(s, count).len() as int) =~= first_chars(s, count));
}

/// The last segment of a path is what was put behind its last separator, or the whole text where
/// there is none.
pub proof fn law_last_segment(head: Seq<char>, separator: char, tail: Seq<char>)
    requires
        lacks(tail, separator),
    ensures
        after_last(head + seq![separator] + tail, separator) == tail,
        after_last(tail, separator) == tail,
    decreases tail.len(),
{
    let whole = head + seq![separator] + tail;
    if tail.len() == 0 {
        assert(whole.last() == separator);
    } else {
        let shorter = tail.drop_last();
        assert forall|i: int| 0 <= i < shorter.len() implies #[trigger] shorter[i] != separator by {
            assert(shorter[i] == tail[i]);
        }
        law_last_segment(head, separator, shorter);
        assert(whole.drop_last() =~= head + seq![separator] + shorter);
        assert(whole.last() == tail.last());
        assert(tail[tail.len() - 1] != separator);
        assert(shorter.push(tail.last()) =~= tail);
    }
}

/// No prefix is left where all of them were taken off, and taking them off again changes nothing.
pub proof fn law_prefixes_are_taken_off(s: Seq<char>, prefix: Seq<char>)
    requires
        prefix.len() > 0,
    ensures
        !begins(without_prefixes(s, prefix), prefix),
        without_prefixes(prefix + s, prefix) == without_prefixes(s, prefix),
        !begins(s, prefix) ==> without_prefixes(s, prefix) == s,
    decreases s.len(),
{
    let longer = prefix + s;
    assert(longer.subrange(0, prefix.len() as int) =~= prefix);
    assert(longer.skip(prefix.len() as int) =~= s);
    if begins(s, prefix) {
        law_prefixes_are_taken_off(s.skip(prefix.len() as int), prefix);
    }
}

/// No white space stands in the text.
pub open spec fn solid(s: Seq<char>) -> bool {
    forall|i: int| 0 <= i < s.len() ==> !whitespace(#[trigger] s[i])
}

proof fn lemma_word_ends(word: Seq<char>, rest: Seq<char>)
    requires
        solid(word),
        rest.len() == 0 || whitespace(rest[0]),
    ensures
        word_length(word + rest) == word.len(),
    decreases word.len(),
{
    let whole = word + rest;
    if word.len() == 0 {
        assert(whole =~= rest);
    } else {
        assert(whole[0] == word[0]);
        assert(whole.skip(1) =~= word.skip(1) + rest);
        assert forall|i: int| 0 <= i < word.skip(1).len() implies !whitespace(
            #[trigger] word.skip(1)[i],
        ) by {
            assert(word.skip(1)[i] == word[i + 1]);
        }
        lemma_word_ends(word.skip(1), rest);
    }
}

/// The words of a text are those that white space separates: the one before the first white space,
/// and then the words of what follows it. White space in front counts for nothing.
pub proof fn law_words_are_separated(word: Seq<char>, space: char, rest: Seq<char>)
    requires
        solid(word),
        word.len() > 0,
        whitespace(space),
    ensures
        words_of(word) == seq![word],
        words_of(word + seq![space] + rest) == seq![word] + words_of(rest),
        words_of(seq![space] + rest) == words_of(rest),
{
    let spaced = seq![space] + rest;
    assert(spaced.skip(1) =~= rest);
    assert(trimmed_start(spaced) == trimmed_start(rest));
    assert(words_of(spaced) == words_of(rest));
    let whole = word + spaced;
    assert(word + seq![space] + rest =~= whole);
    assert(whole[0] == word[0]);
    lemma_word_ends(word, spaced);
    assert(whole.take(word.len() as int) =~= word);
    assert(whole.skip(word.len() as int) =~= spaced);
    assert(trimmed_start(whole) == whole);
    lemma_word_ends(word, Seq::empty());
    assert(word + Seq::<char>::empty() =~= word);
    assert(word.take(word.len() as int) =~= word);
    assert(word.skip(word.len() as int).len() == 0);
    assert(words_of(word.skip(word.len() as int)) =~= Seq::<Seq<char>>::empty());
    assert(words_of(word) =~= seq![word]);
}

proof fn lemma_word_is_solid(s: Seq<char>)
    ensures
        word_length(s) <= s.len(),
        solid(s.take(word_length(s) as int)),
    decreases s.len(),
{
    lemma_word_length(s);
    if s.len() > 0 && !whitespace(s[0]) {
        lemma_word_is_solid(s.skip(1));
        let n = word_length(s) as int;
        let rest = s.skip(1).take(n - 1);
        assert forall|i: int| 0 <= i < n implies !whitespace(#[trigger] s.take(n)[i]) by {
            if i > 0 {
                assert(rest[i - 1] == s[i]);
            }
        }
    }
}

/// No word is empty, and none holds white space.
pub proof fn law_words_are_solid(s: Seq<char>, k: int)
    requires
        0 <= k < words_of(s).len(),
    ensures
        words_of(s)[k].len() > 0,
        solid(words_of(s)[k]),
    decreases s.len(),
{
    let rest = trimmed_start(s);
    lemma_trimmed_start_shape(s);
    lemma_word_length(rest);
    lemma_word_is_solid(rest);
    let n = word_length(rest) as int;
    if k > 0 {
        law_words_are_solid(rest.skip(n), k - 1);
        assert(words_of(s)[k] == words_of(rest.skip(n))[k - 1]);
    } else {
        assert(words_of(s)[0] == rest.take(n));
    }
}

proof fn lemma_line_ends(line: Seq<char>, rest: Seq<char>, from: int)
    requires
        lacks(line, '\n'),
        0 <= from <= line.len(),
    ensures
        next_position(line + seq!['\n'] + rest, '\n', from) == line.len(),
        next_position(line, '\n', from) == line.len(),
    decreases line.len() - from,
{
    let whole = line + seq!['\n'] + rest;
    if from < line.len() {
        assert(whole[from] == line[from]);
        lemma_line_ends(line, rest, from + 1);
    } else {
        assert(whole[from] == '\n');
    }
}

/// The lines of a text are those that line feeds end: the one before the first line feed, without a
/// carriage return at its end, and then the lines of what follows. A last line needs no line feed.
pub proof fn law_lines_are_ended(line: Seq<char>, rest: Seq<char>)
    requires
        lacks(line, '\n'),
    ensures
        lines_of(line + seq!['\n'] + rest) == seq![
            if line.len() > 0 && line.last() == '\r' {
                line.drop_last()
            } else {
                line
            },
        ] + lines_of(rest),
        line.len() > 0 ==> lines_of(line) == seq![line],
        lines_of(Seq::<char>::empty()).len() == 0,
{
    let whole = line + seq!['\n'] + rest;
    lemma_line_ends(line, rest, 0);
    assert(whole.take(line.len() as int) =~= line);
    assert(whole.skip(line.len() as int + 1) =~= rest);
    assert(without_return(line) == if line.len() > 0 && line.last() == '\r' {
        line.drop_last()
    } else {
        line
    });
}

/// Texts that are joined stand one behind the other, with the separator between any two.
pub proof fn law_joining(parts: Seq<Seq<char>>, separator: Seq<char>, part: Seq<char>)
    ensures
        joined_with(Seq::<Seq<char>>::empty(), separator).len() == 0,
        joined_with(seq![part], separator) == part,
        parts.len() > 0 ==> joined_with(parts.push(part), separator) == joined_with(
            parts,
            separator,
        ) + separator + part,
{
    assert(seq![part][0] == part);
    if parts.len() > 0 {
        assert(parts.push(part).drop_last() =~= parts);
    }
}

} // verus!
