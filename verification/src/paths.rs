//! Unix paths as text.
use vstd::prelude::*;

use crate::text::{
    begins, chars_of, joined, next_position, same_text, starts_with, text_of, trim,
    trim_start_matches, trimmed, without_prefixes,
};

verus! {

/// What stands between the `c`s of `s`, in order; one piece more than there are `c`s.
pub open spec fn pieces_of(s: Seq<char>, c: char) -> Seq<Seq<char>>
    decreases s.len(),
{
    let end = next_position(s, c, 0);
    if end < 0 || end >= s.len() {
        seq![s]
    } else {
        seq![s.take(end)] + pieces_of(s.skip(end + 1), c)
    }
}

/// What stands between the `c`s of `s`, in order.
pub fn split_on(s: &str, c: char) -> (r: Vec<String>)
    ensures
        r.deep_view() == pieces_of(s@, c),
{
    let chars = chars_of(s);
    let total: usize = chars.len();
    let mut out: Vec<String> = Vec::new();
    let mut from: usize = 0;
    assert(chars@.skip(0) =~= chars@);
    assert(out.deep_view() + pieces_of(chars@, c) =~= pieces_of(s@, c));
    loop
        invariant
            from <= total,
            total == chars@.len(),
            pieces_of(s@, c) == out.deep_view() + pieces_of(chars@.skip(from as int), c),
        decreases total - from,
    {
        let ghost rest = chars@.skip(from as int);
        let mut to: usize = from;
        while to < total && chars[to] != c
            invariant
                from <= to <= total,
                total == chars@.len(),
                rest == chars@.skip(from as int),
                next_position(rest, c, 0) == next_position(rest, c, to - from),
            decreases total - to,
        {
            assert(rest[to - from] == chars@[to as int]);
            to = to + 1;
        }
        let piece = text_of(&chars, from, to);
        let ghost before = out.deep_view();
        if to == total {
            assert(piece@ =~= rest);
            out.push(piece);
            proof {
                assert(out.deep_view() =~= before.push(rest));
                assert(before + pieces_of(rest, c) =~= out.deep_view());
            }
            return out;
        }
        assert(rest[to - from] == chars@[to as int]);
        assert(piece@ =~= rest.take(to - from));
        assert(rest.skip(to - from + 1) =~= chars@.skip(to + 1));
        out.push(piece);
        proof {
            assert(out.deep_view() =~= before.push(piece@));
            assert(before + pieces_of(rest, c) =~= out.deep_view() + pieces_of(
                chars@.skip(to + 1),
                c,
            ));
        }
        from = to + 1;
    }
}

/// The path begins at the root.
pub open spec fn rooted(path: Seq<char>) -> bool {
    path.len() > 0 && path[0] == '/'
}

/// Whether the path begins at the root.
pub fn is_absolute(path: &str) -> (r: bool)
    ensures
        r == rooted(path@),
{
    let chars = chars_of(path);
    chars.len() > 0 && chars[0] == '/'
}

/// A piece that names something: empty pieces do not, and `.` does only at the start of a path.
pub open spec fn names(piece: Seq<char>, first: bool) -> bool {
    piece.len() > 0 && (first || piece != "."@)
}

/// The pieces that name something, in order; `first` tells whether the pieces begin a path.
pub open spec fn named_pieces(pieces: Seq<Seq<char>>, first: bool) -> Seq<Seq<char>>
    decreases pieces.len(),
{
    if pieces.len() == 0 {
        Seq::empty()
    } else if names(pieces[0], first) {
        seq![pieces[0]] + named_pieces(pieces.skip(1), false)
    } else {
        named_pieces(pieces.skip(1), false)
    }
}

/// The components of a path: the root, where it begins there, and the names in order. Repeated and
/// trailing slashes and inner `.` do not count.
pub open spec fn components_of(path: Seq<char>) -> Seq<Seq<char>> {
    if rooted(path) {
        seq!["/"@] + named_pieces(pieces_of(path, '/'), false)
    } else {
        named_pieces(pieces_of(path, '/'), true)
    }
}

/// The components of a path.
pub fn components(path: &str) -> (r: Vec<String>)
    ensures
        r.deep_view() == components_of(path@),
{
    let pieces = split_on(path, '/');
    let absolute = is_absolute(path);
    let mut out: Vec<String> = Vec::new();
    if absolute {
        out.push("/".to_owned());
    }
    let ghost all = pieces.deep_view();
    let mut first = !absolute;
    let mut i: usize = 0;
    proof {
        assert(all.skip(0) =~= all);
        if absolute {
            assert(out.deep_view() =~= seq!["/"@]);
        } else {
            assert(out.deep_view() + named_pieces(all, true) =~= named_pieces(all, true));
        }
    }
    while i < pieces.len()
        invariant
            i <= pieces@.len(),
            all == pieces.deep_view(),
            components_of(path@) == out.deep_view() + named_pieces(all.skip(i as int), first),
        decreases pieces@.len() - i,
    {
        let ghost rest = all.skip(i as int);
        assert(rest[0] == pieces@[i as int]@);
        assert(rest.skip(1) =~= all.skip(i + 1));
        let ghost before = out.deep_view();
        let piece = pieces[i].as_str();
        if chars_of(piece).len() > 0 && (first || !same_text(piece, ".")) {
            out.push(pieces[i].clone());
            assert(out.deep_view() =~= before.push(rest[0]));
            assert(before + (seq![rest[0]] + named_pieces(rest.skip(1), false)) =~= before.push(
                rest[0],
            ) + named_pieces(rest.skip(1), false));
        }
        first = false;
        i = i + 1;
    }
    assert(out.deep_view() + Seq::<Seq<char>>::empty() =~= out.deep_view());
    out
}

/// The path lies at or under `base`: the components of `base` begin its own.
pub open spec fn lies_under(path: Seq<char>, base: Seq<char>) -> bool {
    let outer = components_of(base);
    let inner = components_of(path);
    outer.len() <= inner.len() && inner.take(outer.len() as int) == outer
}

/// How many components a path has.
pub open spec fn depth_of(path: Seq<char>) -> nat {
    components_of(path).len()
}

/// How many components a path has.
pub fn depth(path: &str) -> (r: usize)
    ensures
        r == depth_of(path@),
{
    let parts = components(path);
    assert(parts.deep_view().len() == parts@.len());
    parts.len()
}

/// Whether the path lies at or under `base`.
pub fn is_under(path: &str, base: &str) -> (r: bool)
    ensures
        r == lies_under(path@, base@),
{
    let inner = components(path);
    let outer = components(base);
    let ghost a = inner.deep_view();
    let ghost b = outer.deep_view();
    assert(a.len() == inner@.len());
    assert(b.len() == outer@.len());
    if outer.len() > inner.len() {
        return false;
    }
    let mut i: usize = 0;
    while i < outer.len()
        invariant
            i <= outer@.len() <= inner@.len(),
            a == inner.deep_view(),
            b == outer.deep_view(),
            a == components_of(path@),
            b == components_of(base@),
            forall|j: int| 0 <= j < i ==> a[j] == b[j],
        decreases outer@.len() - i,
    {
        assert(a[i as int] == inner@[i as int]@);
        assert(b[i as int] == outer@[i as int]@);
        if !same_text(inner[i].as_str(), outer[i].as_str()) {
            assert(a.take(b.len() as int)[i as int] != b[i as int]);
            return false;
        }
        i = i + 1;
    }
    assert(a.take(b.len() as int) =~= b);
    true
}

/// The name of the file or directory that a path leads to: its last component, unless that is the
/// root or a relative step.
pub open spec fn file_name_of(path: Seq<char>) -> Option<Seq<char>> {
    let parts = components_of(path);
    if parts.len() == 0 || parts.last() == "/"@ || parts.last() == "."@ || parts.last() == ".."@ {
        None
    } else {
        Some(parts.last())
    }
}

/// The name of the file or directory that a path leads to.
pub fn file_name(path: &str) -> (r: Option<String>)
    ensures
        r.deep_view() == file_name_of(path@),
{
    let parts = components(path);
    assert(parts.deep_view().len() == parts@.len());
    if parts.len() == 0 {
        return None;
    }
    let last = parts[parts.len() - 1].clone();
    assert(parts.deep_view().last() == last@);
    if same_text(last.as_str(), "/") || same_text(last.as_str(), ".") || same_text(
        last.as_str(),
        "..",
    ) {
        None
    } else {
        Some(last)
    }
}

/// `base` followed by `path`, with a slash between them where it is needed; a path from the root
/// stands alone.
pub open spec fn joined_path(base: Seq<char>, path: Seq<char>) -> Seq<char> {
    if rooted(path) {
        path
    } else if base.len() == 0 || base.last() == '/' {
        base + path
    } else {
        base + "/"@ + path
    }
}

/// `base` followed by `path`.
pub fn join_path(base: &str, path: &str) -> (r: String)
    ensures
        r@ == joined_path(base@, path@),
{
    if is_absolute(path) {
        return path.to_owned();
    }
    let chars = chars_of(base);
    if chars.len() == 0 || chars[chars.len() - 1] == '/' {
        joined(base, path)
    } else {
        joined(joined(base, "/").as_str(), path)
    }
}

/// A path as a user writes it, made absolute: `~` stands for the home directory, also before a
/// slash, and anything else that is not absolute is taken from the current directory.
pub open spec fn expanded_path(
    path: Seq<char>,
    home: Seq<char>,
    current: Seq<char>,
) -> Seq<char> {
    let raw = trimmed(path);
    let expanded = if raw == "~"@ {
        home
    } else if begins(raw, "~/"@) {
        joined_path(home, without_prefixes(raw, "~/"@))
    } else {
        path
    };
    if rooted(expanded) {
        expanded
    } else {
        joined_path(current, expanded)
    }
}

/// A path as a user writes it, made absolute.
pub fn expand_path(path: &str, home: &str, current: &str) -> (r: String)
    ensures
        r@ == expanded_path(path@, home@, current@),
{
    let raw = trim(path);
    let expanded = if same_text(raw.as_str(), "~") {
        home.to_owned()
    } else if starts_with(raw.as_str(), "~/") {
        join_path(home, trim_start_matches(raw.as_str(), "~/").as_str())
    } else {
        path.to_owned()
    };
    if is_absolute(expanded.as_str()) {
        expanded
    } else {
        join_path(current, expanded.as_str())
    }
}

/// Every path lies under itself, and lying under is transitive.
pub proof fn law_lies_under_is_an_order(a: Seq<char>, b: Seq<char>, c: Seq<char>)
    ensures
        lies_under(a, a),
        lies_under(a, b) && lies_under(b, c) ==> lies_under(a, c),
{
    let x = components_of(a);
    let y = components_of(b);
    let z = components_of(c);
    assert(x.take(x.len() as int) =~= x);
    if lies_under(a, b) && lies_under(b, c) {
        assert(y.take(z.len() as int) =~= x.take(z.len() as int)) by {
            assert(x.take(y.len() as int).take(z.len() as int) =~= x.take(z.len() as int));
        }
    }
}

/// An expanded path is absolute where the current directory is.
pub proof fn law_expanded_path_is_absolute(
    path: Seq<char>,
    home: Seq<char>,
    current: Seq<char>,
)
    requires
        rooted(current),
    ensures
        rooted(expanded_path(path, home, current)),
{
    reveal_strlit("/");
}

} // verus!
