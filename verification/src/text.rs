//! Text over sequences of characters: trimming, searching, splitting and joining.
//!
//! Every contract of the crate that speaks of text does so through the spec functions of this
//! module, applied to the character sequence `s@` of a string.
use vstd::prelude::*;

verus! {

// ---------------------------------------------------------------------------
// Building and comparing strings
// ---------------------------------------------------------------------------

/// `String::push` of the standard library: the character is appended at the end.
pub assume_specification[ String::push ](s: &mut String, c: char)
    ensures
        final(s)@ == old(s)@.push(c),
;

/// The characters of `s`, in order.
pub fn chars_of(s: &str) -> (r: Vec<char>)
    ensures
        r@ == s@,
{
    let mut out: Vec<char> = Vec::new();
    for c in it: s.chars()
        invariant
            out@ == s@.subrange(0, it.index()),
            it.seq() == s@,
    {
        out.push(c);
    }
    assert(s@.subrange(0, s@.len() as int) == s@);
    out
}

/// The string made of the characters of `chars` in the range `from..to`.
pub fn text_of(chars: &Vec<char>, from: usize, to: usize) -> (r: String)
    requires
        from <= to <= chars@.len(),
    ensures
        r@ == chars@.subrange(from as int, to as int),
{
    let mut out = String::new();
    let mut i: usize = from;
    while i < to
        invariant
            from <= i <= to <= chars@.len(),
            out@ == chars@.subrange(from as int, i as int),
        decreases to - i,
    {
        out.push(chars[i]);
        i = i + 1;
        assert(chars@.subrange(from as int, i as int) =~= chars@.subrange(
            from as int,
            i - 1,
        ).push(chars@[i - 1]));
    }
    out
}

/// Whether the two strings hold the same characters.
pub fn same_text(a: &str, b: &str) -> (r: bool)
    ensures
        r == (a@ == b@),
{
    a.to_owned() == b.to_owned()
}

/// Whether the two optional strings are both absent, or both present with the same characters.
pub fn same_optional_text(a: &Option<String>, b: &Option<String>) -> (r: bool)
    ensures
        r == (a.deep_view() == b.deep_view()),
{
    match (a, b) {
        (Some(x), Some(y)) => same_text(x.as_str(), y.as_str()),
        (None, None) => true,
        _ => false,
    }
}

/// A copy of an optional string.
pub fn copy_optional_text(a: &Option<String>) -> (r: Option<String>)
    ensures
        r == *a,
        r.deep_view() == a.deep_view(),
{
    match a {
        Some(x) => Some(x.clone()),
        None => None,
    }
}

/// `a` followed by `b`.
pub fn joined(a: &str, b: &str) -> (r: String)
    ensures
        r@ == a@ + b@,
{
    let mut out = a.to_owned();
    out.append(b);
    out
}

/// At most the first `count` characters of `s`.
pub open spec fn first_chars(s: Seq<char>, count: nat) -> Seq<char> {
    if s.len() <= count {
        s
    } else {
        s.take(count as int)
    }
}

/// At most the first `count` characters of `s`.
pub fn take_chars(s: &str, count: usize) -> (r: String)
    ensures
        r@ == first_chars(s@, count as nat),
{
    let chars = chars_of(s);
    let end: usize = if chars.len() <= count {
        chars.len()
    } else {
        count
    };
    assert(chars@.subrange(0, end as int) =~= first_chars(s@, count as nat));
    text_of(&chars, 0, end)
}

/// How many characters `s` has.
pub fn char_count(s: &str) -> (r: usize)
    ensures
        r == s@.len(),
{
    chars_of(s).len()
}

/// The code point of `c`.
pub fn code_point(c: char) -> (r: u32)
    ensures
        r == c as int,
{
    c as u32
}

/// Whether `text` is one of `list`.
pub fn holds(list: &Vec<String>, text: &str) -> (r: bool)
    ensures
        r == list.deep_view().contains(text@),
{
    let ghost all = list.deep_view();
    let mut i: usize = 0;
    while i < list.len()
        invariant
            i <= list@.len(),
            all == list.deep_view(),
            forall|j: int| 0 <= j < i ==> all[j] != text@,
        decreases list@.len() - i,
    {
        assert(all[i as int] == list@[i as int]@);
        if same_text(list[i].as_str(), text) {
            return true;
        }
        i = i + 1;
    }
    false
}

// ---------------------------------------------------------------------------
// White space
// ---------------------------------------------------------------------------

/// The characters with the Unicode property `White_Space`.
pub open spec fn whitespace(c: char) -> bool {
    let n = c as int;
    ||| 0x9 <= n <= 0xd
    ||| n == 0x20
    ||| n == 0x85
    ||| n == 0xa0
    ||| n == 0x1680
    ||| 0x2000 <= n <= 0x200a
    ||| n == 0x2028
    ||| n == 0x2029
    ||| n == 0x202f
    ||| n == 0x205f
    ||| n == 0x3000
}

/// Whether `c` is white space.
pub fn is_whitespace(c: char) -> (r: bool)
    ensures
        r == whitespace(c),
{
    let n: u32 = c as u32;
    (0x9 <= n && n <= 0xd) || n == 0x20 || n == 0x85 || n == 0xa0 || n == 0x1680 || (0x2000 <= n
        && n <= 0x200a) || n == 0x2028 || n == 0x2029 || n == 0x202f || n == 0x205f || n == 0x3000
}

/// `s` without its leading white space.
pub open spec fn trimmed_start(s: Seq<char>) -> Seq<char>
    decreases s.len(),
{
    if s.len() > 0 && whitespace(s[0]) {
        trimmed_start(s.skip(1))
    } else {
        s
    }
}

/// `s` without its trailing white space.
pub open spec fn trimmed_end(s: Seq<char>) -> Seq<char>
    decreases s.len(),
{
    if s.len() > 0 && whitespace(s.last()) {
        trimmed_end(s.drop_last())
    } else {
        s
    }
}

/// `s` without its leading and trailing white space.
pub open spec fn trimmed(s: Seq<char>) -> Seq<char> {
    trimmed_end(trimmed_start(s))
}

/// `s` without its leading and trailing white space.
pub fn trim(s: &str) -> (r: String)
    ensures
        r@ == trimmed(s@),
{
    let chars = chars_of(s);
    let mut from: usize = 0;
    assert(chars@.skip(0) =~= chars@);
    while from < chars.len() && is_whitespace(chars[from])
        invariant
            from <= chars@.len(),
            trimmed_start(chars@) == trimmed_start(chars@.skip(from as int)),
        decreases chars@.len() - from,
    {
        assert(chars@.skip(from as int).skip(1) =~= chars@.skip(from + 1));
        from = from + 1;
    }
    let mut to: usize = chars.len();
    assert(chars@.subrange(from as int, to as int) =~= chars@.skip(from as int));
    while from < to && is_whitespace(chars[to - 1])
        invariant
            from <= to <= chars@.len(),
            trimmed(chars@) == trimmed_end(chars@.subrange(from as int, to as int)),
        decreases to,
    {
        assert(chars@.subrange(from as int, to as int).drop_last() =~= chars@.subrange(
            from as int,
            to - 1,
        ));
        to = to - 1;
    }
    text_of(&chars, from, to)
}

/// Whether `s` holds no characters.
pub fn is_empty(s: &str) -> (r: bool)
    ensures
        r == (s@.len() == 0),
{
    chars_of(s).len() == 0
}

/// Whether `s` holds nothing but white space.
pub fn is_blank(s: &str) -> (r: bool)
    ensures
        r == (trimmed(s@).len() == 0),
{
    is_empty(trim(s).as_str())
}

/// What is left after leading white space goes is a suffix that does not begin with white space.
pub proof fn lemma_trimmed_start_shape(s: Seq<char>)
    ensures
        trimmed_start(s).len() <= s.len(),
        trimmed_start(s).len() > 0 ==> !whitespace(trimmed_start(s)[0]),
        s.len() > 0 && !whitespace(s[0]) ==> trimmed_start(s) == s,
        trimmed_start(s) == s.skip(s.len() - trimmed_start(s).len()),
    decreases s.len(),
{
    if s.len() > 0 && whitespace(s[0]) {
        lemma_trimmed_start_shape(s.skip(1));
        let t = trimmed_start(s);
        assert(s.skip(1).skip(s.skip(1).len() - t.len()) =~= s.skip(s.len() - t.len()));
    } else {
        assert(s.skip(0) =~= s);
    }
}

/// What is left after trailing white space goes is a prefix that does not end with white space.
pub proof fn lemma_trimmed_end_shape(s: Seq<char>)
    ensures
        trimmed_end(s).len() <= s.len(),
        trimmed_end(s).len() > 0 ==> !whitespace(trimmed_end(s).last()),
        trimmed_end(s).len() > 0 ==> trimmed_end(s)[0] == s[0],
        s.len() > 0 && !whitespace(s[0]) ==> trimmed_end(s).len() > 0,
        trimmed_end(s) == s.take(trimmed_end(s).len() as int),
    decreases s.len(),
{
    if s.len() > 0 && whitespace(s.last()) {
        lemma_trimmed_end_shape(s.drop_last());
        let t = trimmed_end(s);
        assert(s.drop_last().take(t.len() as int) =~= s.take(t.len() as int));
    } else {
        assert(s.take(s.len() as int) =~= s);
    }
}

/// Trimmed text neither starts nor ends with white space, and trimming it again changes nothing.
pub proof fn law_trimmed_is_stable(s: Seq<char>)
    ensures
        trimmed(s).len() <= s.len(),
        trimmed(s).len() > 0 ==> !whitespace(trimmed(s)[0]) && !whitespace(trimmed(s).last()),
        trimmed(trimmed(s)) == trimmed(s),
{
    lemma_trimmed_start_shape(s);
    lemma_trimmed_end_shape(trimmed_start(s));
    lemma_trimmed_start_shape(trimmed(s));
}

/// White space around a text that has none at its ends is what trimming takes away.
pub proof fn law_trimming_undoes_padding(before: Seq<char>, text: Seq<char>, after: Seq<char>)
    requires
        forall|i: int| 0 <= i < before.len() ==> whitespace(#[trigger] before[i]),
        forall|i: int| 0 <= i < after.len() ==> whitespace(#[trigger] after[i]),
        text.len() > 0,
        !whitespace(text[0]),
        !whitespace(text.last()),
    ensures
        trimmed(before + text + after) == text,
    decreases before.len() + after.len(),
{
    let s = before + text + after;
    if before.len() > 0 {
        assert(s[0] == before[0]);
        assert(s.skip(1) =~= before.skip(1) + text + after);
        law_trimming_undoes_padding(before.skip(1), text, after);
    } else if after.len() > 0 {
        assert(s[0] == text[0]);
        assert(s.last() == after.last());
        assert(s.drop_last() =~= before + text + after.drop_last());
        assert(s.drop_last()[0] == text[0]);
        law_trimming_undoes_padding(before, text, after.drop_last());
    } else {
        assert(s =~= text);
    }
}

/// The text holds no `c`.
pub open spec fn lacks(s: Seq<char>, c: char) -> bool {
    forall|i: int| 0 <= i < s.len() ==> #[trigger] s[i] != c
}

/// What a text lacks, its trimmed form lacks.
pub proof fn lemma_trimmed_lacks(s: Seq<char>, c: char)
    requires
        lacks(s, c),
    ensures
        lacks(trimmed(s), c),
{
    lemma_trimmed_start_shape(s);
    let t = trimmed_start(s);
    lemma_trimmed_end_shape(t);
    assert forall|i: int| 0 <= i < trimmed(s).len() implies #[trigger] trimmed(s)[i] != c by {
        assert(trimmed(s)[i] == t[i]);
        assert(t[i] == s[i + (s.len() - t.len())]);
    }
}

// ---------------------------------------------------------------------------
// ASCII letter case
// ---------------------------------------------------------------------------

/// The lower-case form of an ASCII letter; any other character is itself.
pub open spec fn lowered_char(c: char) -> char {
    if 'A' <= c && c <= 'Z' {
        (c as int + 32) as char
    } else {
        c
    }
}

/// `s` with its ASCII letters in lower case.
pub open spec fn lowered(s: Seq<char>) -> Seq<char> {
    s.map_values(|c: char| lowered_char(c))
}

/// `s` with its ASCII letters in lower case.
pub fn to_ascii_lowercase(s: &str) -> (r: String)
    ensures
        r@ == lowered(s@),
{
    let mut out = String::new();
    for c in it: s.chars()
        invariant
            it.seq() == s@,
            out@ == lowered(s@).take(it.index()),
    {
        let low = if 'A' <= c && c <= 'Z' {
            ((c as u8) + 32) as char
        } else {
            c
        };
        out.push(low);
        assert(lowered(s@).take(it.index() + 1) =~= lowered(s@).take(it.index()).push(low));
    }
    assert(lowered(s@).take(s@.len() as int) =~= lowered(s@));
    out
}

// ---------------------------------------------------------------------------
// Searching
// ---------------------------------------------------------------------------

/// `pattern` stands in `s` at position `at`.
pub open spec fn occurs_at(s: Seq<char>, pattern: Seq<char>, at: int) -> bool {
    &&& 0 <= at
    &&& at + pattern.len() <= s.len()
    &&& s.subrange(at, at + pattern.len()) == pattern
}

/// `pattern` stands somewhere in `s`.
pub open spec fn contains(s: Seq<char>, pattern: Seq<char>) -> bool {
    exists|at: int| occurs_at(s, pattern, at)
}

/// `s` begins with `prefix`.
pub open spec fn begins(s: Seq<char>, prefix: Seq<char>) -> bool {
    occurs_at(s, prefix, 0)
}

fn matches_at(chars: &Vec<char>, pattern: &Vec<char>, at: usize) -> (r: bool)
    requires
        at + pattern@.len() <= chars@.len(),
    ensures
        r == occurs_at(chars@, pattern@, at as int),
{
    let total: usize = chars.len();
    let mut i: usize = 0;
    while i < pattern.len()
        invariant
            i <= pattern@.len(),
            at + pattern@.len() <= chars@.len(),
            total == chars@.len(),
            forall|j: int| 0 <= j < i ==> chars@[at + j] == pattern@[j],
        decreases pattern@.len() - i,
    {
        if chars[at + i] != pattern[i] {
            proof {
                if occurs_at(chars@, pattern@, at as int) {
                    assert(chars@.subrange(at as int, at + pattern@.len())[i as int]
                        == pattern@[i as int]);
                }
            }
            return false;
        }
        i = i + 1;
    }
    assert(chars@.subrange(at as int, at + pattern@.len()) =~= pattern@);
    true
}

/// Whether `pattern` stands somewhere in `s`.
pub fn contains_text(s: &str, pattern: &str) -> (r: bool)
    ensures
        r == contains(s@, pattern@),
{
    let chars = chars_of(s);
    let wanted = chars_of(pattern);
    if wanted.len() > chars.len() {
        return false;
    }
    let last: usize = chars.len() - wanted.len();
    let mut at: usize = 0;
    while at <= last
        invariant
            chars@ == s@,
            wanted@ == pattern@,
            last + wanted@.len() == chars@.len(),
            at <= last + 1,
            forall|j: int| 0 <= j < at ==> !occurs_at(chars@, wanted@, j),
        decreases last + 1 - at,
    {
        if matches_at(&chars, &wanted, at) {
            assert(occurs_at(s@, pattern@, at as int));
            return true;
        }
        if at == last {
            assert forall|j: int| !occurs_at(s@, pattern@, j) by {
                if occurs_at(s@, pattern@, j) {
                    assert(j <= last);
                }
            }
            return false;
        }
        at = at + 1;
    }
    false
}

/// Whether any of `patterns` stands somewhere in `s`.
pub open spec fn contains_any(s: Seq<char>, patterns: Seq<&str>) -> bool {
    exists|i: int| 0 <= i < patterns.len() && contains(s, #[trigger] patterns[i]@)
}

/// Whether any of `patterns` stands somewhere in `s`.
pub fn contains_any_of(s: &str, patterns: &Vec<&str>) -> (r: bool)
    ensures
        r == contains_any(s@, patterns@),
{
    let mut i: usize = 0;
    while i < patterns.len()
        invariant
            i <= patterns@.len(),
            forall|j: int| 0 <= j < i ==> !contains(s@, #[trigger] patterns@[j]@),
        decreases patterns@.len() - i,
    {
        if contains_text(s, patterns[i]) {
            assert(contains(s@, patterns@[i as int]@));
            return true;
        }
        i = i + 1;
    }
    false
}

/// Whether `s` begins with `prefix`.
pub fn starts_with(s: &str, prefix: &str) -> (r: bool)
    ensures
        r == begins(s@, prefix@),
{
    let chars = chars_of(s);
    let wanted = chars_of(prefix);
    if wanted.len() > chars.len() {
        return false;
    }
    matches_at(&chars, &wanted, 0)
}

/// `s` without every copy of `prefix` that it begins with, one after the other.
pub open spec fn without_prefixes(s: Seq<char>, prefix: Seq<char>) -> Seq<char>
    decreases s.len(),
{
    if prefix.len() > 0 && begins(s, prefix) {
        without_prefixes(s.skip(prefix.len() as int), prefix)
    } else {
        s
    }
}

/// `s` without every copy of `prefix` that it begins with, one after the other.
pub fn trim_start_matches(s: &str, prefix: &str) -> (r: String)
    ensures
        r@ == without_prefixes(s@, prefix@),
{
    let chars = chars_of(s);
    let wanted = chars_of(prefix);
    let total: usize = chars.len();
    let mut from: usize = 0;
    assert(chars@.skip(0) =~= chars@);
    while wanted.len() > 0 && wanted.len() <= total - from && matches_at(&chars, &wanted, from)
        invariant
            from <= total,
            total == chars@.len(),
            wanted@ == prefix@,
            without_prefixes(chars@, prefix@) == without_prefixes(chars@.skip(from as int), prefix@),
        decreases total - from,
    {
        assert(chars@.skip(from as int).subrange(0, wanted@.len() as int) =~= chars@.subrange(
            from as int,
            from + wanted@.len(),
        ));
        assert(chars@.skip(from as int).skip(wanted@.len() as int) =~= chars@.skip(
            from + wanted@.len(),
        ));
        from = from + wanted.len();
    }
    proof {
        let rest = chars@.skip(from as int);
        if wanted@.len() <= rest.len() {
            assert(rest.subrange(0, wanted@.len() as int) =~= chars@.subrange(
                from as int,
                from + wanted@.len(),
            ));
        }
        assert(chars@.subrange(from as int, total as int) =~= rest);
    }
    text_of(&chars, from, total)
}

/// The position of the first `c` at or after `from`, or the length of `s` where there is none.
pub open spec fn next_position(s: Seq<char>, c: char, from: int) -> int
    decreases s.len() - from,
{
    if from < 0 || from >= s.len() {
        s.len() as int
    } else if s[from] == c {
        from
    } else {
        next_position(s, c, from + 1)
    }
}

/// What follows the last `c` in `s`; all of `s` where it holds no `c`.
pub open spec fn after_last(s: Seq<char>, c: char) -> Seq<char>
    decreases s.len(),
{
    if s.len() == 0 || s.last() == c {
        Seq::empty()
    } else {
        after_last(s.drop_last(), c).push(s.last())
    }
}

/// What follows the last `c` in `s`; all of `s` where it holds no `c`.
pub fn last_segment(s: &str, c: char) -> (r: String)
    ensures
        r@ == after_last(s@, c),
{
    let chars = chars_of(s);
    let total: usize = chars.len();
    let mut from: usize = total;
    proof {
        assert(chars@.subrange(0, total as int) =~= chars@);
    }
    while from > 0 && chars[from - 1] != c
        invariant
            from <= total,
            total == chars@.len(),
            after_last(chars@, c) == after_last(chars@.take(from as int), c) + chars@.subrange(
                from as int,
                total as int,
            ),
        decreases from,
    {
        proof {
            let head = chars@.take(from as int);
            assert(head.drop_last() =~= chars@.take(from - 1));
            assert(after_last(head.drop_last(), c).push(head.last()) + chars@.subrange(
                from as int,
                total as int,
            ) =~= after_last(head.drop_last(), c) + chars@.subrange(from - 1, total as int));
        }
        from = from - 1;
    }
    assert(after_last(chars@.take(from as int), c) =~= Seq::<char>::empty());
    text_of(&chars, from, total)
}

// ---------------------------------------------------------------------------
// Words and lines
// ---------------------------------------------------------------------------

/// How many characters `s` begins with before its first white space.
pub open spec fn word_length(s: Seq<char>) -> nat
    decreases s.len(),
{
    if s.len() == 0 || whitespace(s[0]) {
        0
    } else {
        1 + word_length(s.skip(1))
    }
}

/// A word fits into its text, and is not empty where the text does not begin with white space.
pub proof fn lemma_word_length(s: Seq<char>)
    ensures
        word_length(s) <= s.len(),
        s.len() > 0 && !whitespace(s[0]) ==> word_length(s) > 0,
    decreases s.len(),
{
    if s.len() > 0 && !whitespace(s[0]) {
        lemma_word_length(s.skip(1));
    }
}

/// The runs of characters of `s` that white space separates, in order; none is empty.
pub open spec fn words_of(s: Seq<char>) -> Seq<Seq<char>>
    decreases s.len(),
{
    let rest = trimmed_start(s);
    if rest.len() == 0 {
        Seq::empty()
    } else {
        proof {
            lemma_trimmed_start_shape(s);
            lemma_word_length(rest);
        }
        let n = word_length(rest) as int;
        seq![rest.take(n)] + words_of(rest.skip(n))
    }
}

/// The runs of characters of `s` that white space separates, in order.
pub fn split_whitespace(s: &str) -> (r: Vec<String>)
    ensures
        r.deep_view() == words_of(s@),
{
    let chars = chars_of(s);
    let total: usize = chars.len();
    let mut out: Vec<String> = Vec::new();
    let mut from: usize = 0;
    assert(chars@.skip(0) =~= chars@);
    assert(out.deep_view() + words_of(chars@) =~= words_of(s@));
    loop
        invariant
            from <= total,
            total == chars@.len(),
            words_of(s@) == out.deep_view() + words_of(chars@.skip(from as int)),
        decreases total - from,
    {
        let ghost rest = chars@.skip(from as int);
        let ghost begun = from as int;
        while from < total && is_whitespace(chars[from])
            invariant
                begun <= from <= total,
                total == chars@.len(),
                trimmed_start(rest) == trimmed_start(chars@.skip(from as int)),
            decreases total - from,
        {
            assert(chars@.skip(from as int).skip(1) =~= chars@.skip(from + 1));
            from = from + 1;
        }
        let ghost word_and_more = chars@.skip(from as int);
        assert(trimmed_start(rest) == word_and_more);
        if from == total {
            assert(out.deep_view() + words_of(rest) =~= out.deep_view());
            return out;
        }
        let start: usize = from;
        while from < total && !is_whitespace(chars[from])
            invariant
                start <= from <= total,
                total == chars@.len(),
                word_length(chars@.skip(start as int)) == (from - start) + word_length(
                    chars@.skip(from as int),
                ),
            decreases total - from,
        {
            assert(chars@.skip(from as int).skip(1) =~= chars@.skip(from + 1));
            from = from + 1;
        }
        let word = text_of(&chars, start, from);
        let ghost before = out.deep_view();
        proof {
            lemma_trimmed_start_shape(rest);
            lemma_word_length(word_and_more);
            let n = word_length(word_and_more) as int;
            assert(n == from - start);
            assert(word_and_more.take(n) =~= word@);
            assert(word_and_more.skip(n) =~= chars@.skip(from as int));
            assert(before + words_of(rest) =~= before.push(word@) + words_of(
                chars@.skip(from as int),
            ));
        }
        out.push(word);
        assert(out.deep_view() =~= before.push(word@));
    }
}

/// `s` without one trailing carriage return.
pub open spec fn without_return(s: Seq<char>) -> Seq<char> {
    if s.len() > 0 && s.last() == '\r' {
        s.drop_last()
    } else {
        s
    }
}

/// The lines of `s`: what stands between line feeds. A carriage return just before a line feed
/// belongs to the line end, and a line feed at the very end opens no further line.
pub open spec fn lines_of(s: Seq<char>) -> Seq<Seq<char>>
    decreases s.len(),
{
    let end = next_position(s, '\n', 0);
    if s.len() == 0 {
        Seq::empty()
    } else if end < 0 || end >= s.len() {
        seq![s]
    } else {
        seq![without_return(s.take(end))] + lines_of(s.skip(end + 1))
    }
}

/// What a text lacks, each of its lines lacks.
pub proof fn lemma_lines_lack(s: Seq<char>, c: char)
    requires
        lacks(s, c),
    ensures
        forall|i: int| 0 <= i < lines_of(s).len() ==> lacks(#[trigger] lines_of(s)[i], c),
    decreases s.len(),
{
    let end = next_position(s, '\n', 0);
    if s.len() > 0 && 0 <= end < s.len() {
        let rest = s.skip(end + 1);
        assert(lacks(rest, c)) by {
            assert forall|i: int| 0 <= i < rest.len() implies #[trigger] rest[i] != c by {
                assert(rest[i] == s[i + end + 1]);
            }
        }
        lemma_lines_lack(rest, c);
        assert forall|i: int| 0 <= i < lines_of(s).len() implies lacks(
            #[trigger] lines_of(s)[i],
            c,
        ) by {
            if i > 0 {
                assert(lines_of(s)[i] == lines_of(rest)[i - 1]);
            } else {
                assert(lines_of(s)[0] == without_return(s.take(end)));
            }
        }
    }
}

/// The lines of `s`.
pub fn lines(s: &str) -> (r: Vec<String>)
    ensures
        r.deep_view() == lines_of(s@),
{
    let chars = chars_of(s);
    let total: usize = chars.len();
    let mut out: Vec<String> = Vec::new();
    let mut from: usize = 0;
    assert(chars@.skip(0) =~= chars@);
    assert(out.deep_view() + lines_of(chars@) =~= lines_of(s@));
    while from < total
        invariant
            from <= total,
            total == chars@.len(),
            lines_of(s@) == out.deep_view() + lines_of(chars@.skip(from as int)),
        decreases total - from,
    {
        let ghost rest = chars@.skip(from as int);
        let mut to: usize = from;
        while to < total && chars[to] != '\n'
            invariant
                from <= to <= total,
                total == chars@.len(),
                rest == chars@.skip(from as int),
                next_position(rest, '\n', 0) == next_position(rest, '\n', to - from),
            decreases total - to,
        {
            assert(rest[to - from] == chars@[to as int]);
            to = to + 1;
        }
        let ghost before = out.deep_view();
        if to == total {
            let line = text_of(&chars, from, to);
            assert(line@ =~= rest);
            out.push(line);
            proof {
                assert(out.deep_view() =~= before.push(rest));
                assert(before + lines_of(rest) =~= out.deep_view() + lines_of(
                    chars@.skip(total as int),
                ));
            }
            from = total;
        } else {
            let end: usize = if to > from && chars[to - 1] == '\r' {
                to - 1
            } else {
                to
            };
            let line = text_of(&chars, from, end);
            proof {
                assert(rest[to - from] == chars@[to as int]);
                let head = rest.take(to - from);
                assert(head =~= chars@.subrange(from as int, to as int));
                assert(line@ =~= without_return(head));
                assert(rest.skip(to - from + 1) =~= chars@.skip(to + 1));
            }
            out.push(line);
            proof {
                assert(out.deep_view() =~= before.push(line@));
                assert(before + lines_of(rest) =~= out.deep_view() + lines_of(
                    chars@.skip(to + 1),
                ));
            }
            from = to + 1;
        }
    }
    assert(lines_of(chars@.skip(from as int)) =~= Seq::<Seq<char>>::empty());
    assert(out.deep_view() + Seq::<Seq<char>>::empty() =~= out.deep_view());
    out
}

/// The elements of `parts` in order, with `separator` between neighbours.
pub open spec fn joined_with(parts: Seq<Seq<char>>, separator: Seq<char>) -> Seq<char>
    decreases parts.len(),
{
    if parts.len() == 0 {
        Seq::empty()
    } else if parts.len() == 1 {
        parts[0]
    } else {
        joined_with(parts.drop_last(), separator) + separator + parts.last()
    }
}

/// The elements of `parts` in order, with `separator` between neighbours.
pub fn join(parts: &Vec<String>, separator: &str) -> (r: String)
    ensures
        r@ == joined_with(parts.deep_view(), separator@),
{
    let mut out = String::new();
    let mut i: usize = 0;
    let ghost all = parts.deep_view();
    while i < parts.len()
        invariant
            i <= parts@.len(),
            all == parts.deep_view(),
            out@ == joined_with(all.take(i as int), separator@),
        decreases parts@.len() - i,
    {
        if i > 0 {
            out.append(separator);
        }
        out.append(parts[i].as_str());
        proof {
            assert(all.take(i + 1).drop_last() =~= all.take(i as int));
            assert(all.take(i + 1).last() == parts@[i as int]@);
            if i == 0 {
                assert(Seq::<char>::empty() + parts@[0]@ =~= parts@[0]@);
            }
        }
        i = i + 1;
    }
    assert(all.take(i as int) =~= all);
    out
}

} // verus!
