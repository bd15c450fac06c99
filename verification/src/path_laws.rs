//! What holds of paths, of the files of the state, and of ids.
use vstd::prelude::*;

use crate::paths::{
    components_of, depth_of, expanded_path, file_name_of, joined_path, lies_under, named_pieces,
    names, pieces_of, rooted,
};
use crate::state_paths::{
    project_dir_of, projects_path_of, sessions_path_of, snippets_path_of, state_root_of,
};
use crate::text::{begins, lacks, next_position, trimmed, without_prefixes};
use crate::text_laws::law_prefixes_are_taken_off;

verus! {

proof fn lemma_piece_ends(piece: Seq<char>, c: char, rest: Seq<char>, from: int)
    requires
        lacks(piece, c),
        0 <= from <= piece.len(),
    ensures
        next_position(piece + seq![c] + rest, c, from) == piece.len(),
        next_position(piece, c, from) == piece.len(),
    decreases piece.len() - from,
{
    let whole = piece + seq![c] + rest;
    if from < piece.len() {
        assert(whole[from] == piece[from]);
        lemma_piece_ends(piece, c, rest, from + 1);
    } else {
        assert(whole[from] == c);
    }
}

/// A text is taken apart at each separator: the piece before the first one comes first, and then the
/// pieces of what follows.
pub proof fn law_pieces(piece: Seq<char>, c: char, rest: Seq<char>)
    requires
        lacks(piece, c),
    ensures
        pieces_of(piece, c) == seq![piece],
        pieces_of(piece + seq![c] + rest, c) == seq![piece] + pieces_of(rest, c),
{
    lemma_piece_ends(piece, c, rest, 0);
    let whole = piece + seq![c] + rest;
    assert(whole.take(piece.len() as int) =~= piece);
    assert(whole.skip(piece.len() as int + 1) =~= rest);
}

proof fn lemma_next_position(s: Seq<char>, c: char, from: int)
    requires
        0 <= from <= s.len(),
    ensures
        from <= next_position(s, c, from) <= s.len(),
        next_position(s, c, from) < s.len() ==> s[next_position(s, c, from)] == c,
        forall|i: int| from <= i < next_position(s, c, from) ==> #[trigger] s[i] != c,
    decreases s.len() - from,
{
    if from < s.len() && s[from] != c {
        lemma_next_position(s, c, from + 1);
    }
}

proof fn lemma_last_piece(base: Seq<char>, name: Seq<char>)
    requires
        lacks(name, '/'),
    ensures
        pieces_of(base + seq!['/'] + name, '/') == pieces_of(base, '/').push(name),
        pieces_of(base, '/').len() > 0,
    decreases base.len(),
{
    lemma_next_position(base, '/', 0);
    let end = next_position(base, '/', 0);
    law_pieces(name, '/', Seq::empty());
    if end >= base.len() {
        law_pieces(base, '/', name);
        assert(pieces_of(base + seq!['/'] + name, '/') =~= pieces_of(base, '/').push(name));
    } else {
        let first = base.take(end);
        let rest = base.skip(end + 1);
        assert(base =~= first + seq!['/'] + rest);
        assert(lacks(first, '/'));
        law_pieces(first, '/', rest);
        law_pieces(first, '/', rest + seq!['/'] + name);
        assert(base + seq!['/'] + name =~= first + seq!['/'] + (rest + seq!['/'] + name));
        lemma_last_piece(rest, name);
        assert(seq![first] + pieces_of(rest, '/').push(name) =~= (seq![first] + pieces_of(
            rest,
            '/',
        )).push(name));
    }
}

proof fn lemma_named_last(pieces: Seq<Seq<char>>, first: bool, name: Seq<char>)
    requires
        pieces.len() > 0 || !first,
        names(name, false),
    ensures
        named_pieces(pieces.push(name), first) == named_pieces(pieces, first).push(name),
    decreases pieces.len(),
{
    let all = pieces.push(name);
    if pieces.len() == 0 {
        assert(all[0] == name);
        assert(all.skip(1) =~= Seq::<Seq<char>>::empty());
        assert(named_pieces(all.skip(1), false) =~= Seq::<Seq<char>>::empty());
        assert(named_pieces(all, first) =~= named_pieces(pieces, first).push(name));
    } else {
        assert(all[0] == pieces[0]);
        assert(all.skip(1) =~= pieces.skip(1).push(name));
        lemma_named_last(pieces.skip(1), false, name);
        assert(named_pieces(all, first) =~= named_pieces(pieces, first).push(name));
    }
}

/// The text names an entry of a directory.
pub open spec fn entry_name(name: Seq<char>) -> bool {
    name.len() > 0 && lacks(name, '/') && name != "."@
}

/// An entry of a directory has the directory's components and its own name behind them: it lies
/// under the directory, one deeper, and the directory does not lie under it.
pub proof fn law_entries_lie_under(base: Seq<char>, name: Seq<char>)
    requires
        base.len() > 0,
        entry_name(name),
    ensures
        ({
            let entry = base + seq!['/'] + name;
            &&& components_of(entry) == components_of(base).push(name)
            &&& lies_under(entry, base)
            &&& !lies_under(base, entry)
            &&& depth_of(entry) == depth_of(base) + 1
            &&& name != ".."@ ==> file_name_of(entry) == Some(name)
        }),
{
    let entry = base + seq!['/'] + name;
    lemma_last_piece(base, name);
    assert(rooted(entry) == rooted(base)) by {
        assert(entry[0] == base[0]);
    }
    lemma_named_last(pieces_of(base, '/'), !rooted(base), name);
    assert(components_of(entry) =~= components_of(base).push(name));
    assert(components_of(entry).take(components_of(base).len() as int) =~= components_of(base));
    assert(components_of(entry).last() == name);
    reveal_strlit("/");
    assert(name != "/"@) by {
        if name == "/"@ {
            assert(name[0] == '/');
        }
    }
}

/// Of two entries of a directory neither lies under the other, even where the name of one begins
/// with that of the other.
pub proof fn law_siblings_lie_apart(base: Seq<char>, one: Seq<char>, other: Seq<char>)
    requires
        base.len() > 0,
        entry_name(one),
        entry_name(other),
        one != other,
    ensures
        !lies_under(base + seq!['/'] + one, base + seq!['/'] + other),
{
    law_entries_lie_under(base, one);
    law_entries_lie_under(base, other);
    let a = components_of(base + seq!['/'] + one);
    let b = components_of(base + seq!['/'] + other);
    assert(a.last() == one);
    assert(b.last() == other);
    if lies_under(base + seq!['/'] + one, base + seq!['/'] + other) {
        assert(a.take(b.len() as int) =~= a);
    }
}

/// A path that is joined to a directory is the directory's entry; a path from the root stays what it
/// is.
pub proof fn law_joined_paths(base: Seq<char>, name: Seq<char>)
    ensures
        rooted(name) ==> joined_path(base, name) == name,
        !rooted(name) && base.len() > 0 && base.last() != '/' ==> joined_path(base, name) == base
            + "/"@ + name,
        !rooted(name) && base.len() > 0 && base.last() == '/' ==> joined_path(base, name) == base
            + name,
        base.len() > 0 && base.last() != '/' && entry_name(name) ==> lies_under(
            joined_path(base, name),
            base,
        ) && depth_of(joined_path(base, name)) == depth_of(base) + 1,
{
    reveal_strlit("/");
    if base.len() > 0 && base.last() != '/' && entry_name(name) {
        assert(name[0] != '/');
        law_entries_lie_under(base, name);
        assert("/"@ =~= seq!['/']);
        assert(joined_path(base, name) =~= base + seq!['/'] + name);
    }
}

/// A path that begins with the sign for the home directory lies in it; a path from the root stays as
/// it was written, and any other path starts from the current directory.
pub proof fn law_expanded_paths(path: Seq<char>, home: Seq<char>, current: Seq<char>)
    requires
        rooted(home),
    ensures
        trimmed(path) == "~"@ ==> expanded_path(path, home, current) == home,
        begins(trimmed(path), "~/"@) && home.last() != '/' && !rooted(
            without_prefixes(trimmed(path), "~/"@),
        ) ==> expanded_path(path, home, current) == home + "/"@ + without_prefixes(
            trimmed(path),
            "~/"@,
        ),
        trimmed(path) != "~"@ && !begins(trimmed(path), "~/"@) && rooted(path) ==> expanded_path(
            path,
            home,
            current,
        ) == path,
        trimmed(path) != "~"@ && !begins(trimmed(path), "~/"@) && !rooted(path) && current.len() > 0
            && current.last() != '/' ==> expanded_path(path, home, current) == current + "/"@
            + path,
{
    reveal_strlit("~");
    reveal_strlit("~/");
    if trimmed(path) == "~"@ {
        assert(!begins("~"@, "~/"@));
    }
}

/// What follows the sign for the home directory is what was written behind it.
pub proof fn law_home_prefix(rest: Seq<char>)
    requires
        !begins(rest, "~/"@),
    ensures
        without_prefixes("~/"@ + rest, "~/"@) == rest,
{
    reveal_strlit("~/");
    law_prefixes_are_taken_off(rest, "~/"@);
}

/// Where the files of the state are: in a directory of the home directory, the list of projects in
/// it, and each project's sessions and snippets in a directory of the project's own.
pub proof fn law_state_files(home: Seq<char>, root: Seq<char>, project_id: Seq<char>)
    requires
        home.len() > 0,
        home.last() != '/',
        root.len() > 0,
        root.last() != '/',
        entry_name(project_id),
    ensures
        state_root_of(home) == home + "/"@ + ".kaku"@,
        projects_path_of(root) == root + "/"@ + "projects.json"@,
        project_dir_of(root, project_id) == root + "/"@ + "projects"@ + "/"@ + project_id,
        sessions_path_of(root, project_id) == root + "/"@ + "projects"@ + "/"@ + project_id + "/"@
            + "sessions.json"@,
        snippets_path_of(root, project_id) == root + "/"@ + "projects"@ + "/"@ + project_id + "/"@
            + "resources"@ + "/"@ + "snippets.json"@,
        sessions_path_of(root, project_id) != snippets_path_of(root, project_id),
        lies_under(sessions_path_of(root, project_id), project_dir_of(root, project_id)),
{
    reveal_strlit("/");
    reveal_strlit(".kaku");
    reveal_strlit("projects.json");
    reveal_strlit("projects");
    reveal_strlit("sessions.json");
    reveal_strlit("resources");
    reveal_strlit("snippets.json");
    assert(project_id[0] != '/');
    assert(project_id[project_id.len() - 1] != '/');
    let dir = project_dir_of(root, project_id);
    assert(dir.last() == project_id.last());
    let a = sessions_path_of(root, project_id);
    let b = snippets_path_of(root, project_id);
    assert(a.len() == dir.len() + 14);
    assert(b.len() == dir.len() + 24);
    reveal_strlit(".");
    assert("sessions.json"@.len() == 13);
    assert("."@.len() == 1);
    assert(entry_name("sessions.json"@));
    law_joined_paths(dir, "sessions.json"@);
}

proof fn lemma_unnamed_last(pieces: Seq<Seq<char>>, first: bool, name: Seq<char>)
    requires
        pieces.len() > 0 || !first,
        !names(name, false),
    ensures
        named_pieces(pieces.push(name), first) == named_pieces(pieces, first),
    decreases pieces.len(),
{
    let all = pieces.push(name);
    if pieces.len() == 0 {
        assert(all[0] == name);
        assert(all.skip(1) =~= Seq::<Seq<char>>::empty());
        assert(named_pieces(all.skip(1), false) =~= Seq::<Seq<char>>::empty());
        assert(named_pieces(pieces, first) =~= Seq::<Seq<char>>::empty());
    } else {
        assert(all[0] == pieces[0]);
        assert(all.skip(1) =~= pieces.skip(1).push(name));
        lemma_unnamed_last(pieces.skip(1), false, name);
    }
}

/// A separator at the end of a path, one separator behind another, and a component that names the
/// directory itself count for nothing.
pub proof fn law_empty_components_count_for_nothing(base: Seq<char>)
    requires
        base.len() > 0,
    ensures
        components_of(base + seq!['/']) == components_of(base),
        components_of(base + seq!['/'] + "."@) == components_of(base),
        lies_under(base, base + seq!['/']),
{
    reveal_strlit(".");
    let ended = base + seq!['/'] + Seq::<char>::empty();
    let dotted = base + seq!['/'] + "."@;
    assert(base + seq!['/'] =~= ended);
    lemma_last_piece(base, Seq::empty());
    lemma_last_piece(base, "."@);
    assert(ended[0] == base[0]);
    assert(dotted[0] == base[0]);
    lemma_unnamed_last(pieces_of(base, '/'), !rooted(base), Seq::empty());
    lemma_unnamed_last(pieces_of(base, '/'), !rooted(base), "."@);
    assert(components_of(ended) =~= components_of(base));
    assert(components_of(dotted) =~= components_of(base));
    assert(components_of(base).take(components_of(base).len() as int) =~= components_of(base));
}

} // verus!
