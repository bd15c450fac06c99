//! The snippets of a project: short texts that can be inserted into a pane.
use vstd::prelude::*;

use crate::entries::{find_place, has_entry, lemma_place_of, place_of};
use crate::order::{law_sorted_is_ordered, sorted, stable_sort};
use crate::sidebar::labels::{derive_snippet_name, snippet_name};
use crate::sidebar::model::{SnippetEntry, SnippetEntryView, SnippetsFile};
use crate::sidebar::store::answered;
use crate::text::{is_blank, is_empty, joined, trim, trimmed};

verus! {

/// The snippets that have an id, in order.
pub open spec fn with_ids(snippets: Seq<SnippetEntryView>) -> Seq<SnippetEntryView>
    decreases snippets.len(),
{
    if snippets.len() == 0 {
        Seq::empty()
    } else if trimmed(snippets.last().id).len() == 0 {
        with_ids(snippets.drop_last())
    } else {
        with_ids(snippets.drop_last()).push(snippets.last())
    }
}

/// The snippets as the sidebar lists them: those with an id, from the one that changed last.
pub open spec fn listed_snippets(snippets: Seq<SnippetEntryView>) -> Seq<SnippetEntryView> {
    sorted::<SnippetEntry>(with_ids(snippets), true)
}

/// The snippets as the sidebar lists them.
pub fn sidebar_load_project_snippets(file: &SnippetsFile) -> (r: Vec<SnippetEntry>)
    ensures
        r.deep_view() == listed_snippets(file.snippets.deep_view()),
{
    let ghost all = file.snippets.deep_view();
    let mut kept: Vec<SnippetEntry> = Vec::new();
    let mut i: usize = 0;
    assert(kept.deep_view() =~= with_ids(all.take(0)));
    while i < file.snippets.len()
        invariant
            i <= file.snippets@.len(),
            all == file.snippets.deep_view(),
            kept.deep_view() == with_ids(all.take(i as int)),
        decreases file.snippets@.len() - i,
    {
        let ghost before = kept.deep_view();
        let snippet = file.snippets[i].clone();
        proof {
            assert(all.take(i + 1).drop_last() =~= all.take(i as int));
            assert(all.take(i + 1).last() == snippet.deep_view());
        }
        if !is_blank(snippet.id.as_str()) {
            kept.push(snippet);
            assert(kept.deep_view() =~= before.push(snippet.deep_view()));
        }
        i = i + 1;
    }
    assert(all.take(i as int) =~= all);
    stable_sort(kept, true)
}

/// The content of a listed snippet; an error where it is not listed.
pub fn sidebar_snippet_content(
    snippets: &Vec<SnippetEntry>,
    project_id: &str,
    snippet_id: &str,
) -> (r: Result<String, String>)
    ensures
        ({
            let all = snippets.deep_view();
            match r {
                Ok(content) => has_entry::<SnippetEntry>(all, snippet_id@) && content@
                    == all[place_of::<SnippetEntry>(all, snippet_id@)].content,
                Err(message) => !has_entry::<SnippetEntry>(all, snippet_id@) && message@
                    == "snippet not found: "@ + project_id@ + "/"@ + snippet_id@,
            }
        }),
{
    let place: usize = find_place(snippets, snippet_id);
    assert(snippets.deep_view().len() == snippets@.len());
    if place >= snippets.len() {
        let mut message = joined("snippet not found: ", project_id);
        message.append("/");
        message.append(snippet_id);
        return Err(message);
    }
    assert(snippets.deep_view()[place as int] == snippets@[place as int].deep_view());
    Ok(snippets[place].content.clone())
}

/// A snippet with this content, named after it.
pub open spec fn new_snippet(id: Seq<char>, content: Seq<char>, now: Seq<char>) -> SnippetEntryView {
    SnippetEntryView { id, name: snippet_name(content), content, updated_at: now }
}

/// Adds a snippet with the trimmed content behind the others, and gives back its name. Nothing is
/// added where the content is blank.
pub fn sidebar_create_snippet(file: &mut SnippetsFile, id: &str, content: &str, now: &str) -> (r:
    Option<String>)
    ensures
        final(file).version == old(file).version,
        if trimmed(content@).len() == 0 {
            &&& r is None
            &&& *final(file) == *old(file)
        } else {
            &&& r matches Some(name) && name@ == snippet_name(trimmed(content@))
            &&& final(file).snippets.deep_view() == old(file).snippets.deep_view().push(
                new_snippet(id@, trimmed(content@), now@),
            )
        },
{
    let content = trim(content);
    if is_empty(content.as_str()) {
        return None;
    }
    let ghost before = file.snippets.deep_view();
    let name = derive_snippet_name(content.as_str());
    let snippet = SnippetEntry {
        id: id.to_owned(),
        name: name.clone(),
        content,
        updated_at: now.to_owned(),
    };
    file.snippets.push(snippet);
    assert(file.snippets.deep_view() =~= before.push(snippet.deep_view()));
    Some(name)
}

/// What is said of an id that no stored snippet has.
pub open spec fn snippet_missing(id: Seq<char>) -> Seq<char> {
    "snippet not found in storage: "@ + id
}

/// Gives a stored snippet the trimmed content, and gives back its new name. Nothing is changed where
/// the content is blank; otherwise it is an error where there is no such snippet.
pub fn sidebar_edit_snippet(
    file: &mut SnippetsFile,
    snippet_id: &str,
    content: &str,
    now: &str,
) -> (r: Result<Option<String>, String>)
    ensures
        final(file).version == old(file).version,
        ({
            let snippets = old(file).snippets.deep_view();
            if trimmed(content@).len() == 0 {
                &&& r matches Ok(name) && name is None
                &&& *final(file) == *old(file)
            } else if !has_entry::<SnippetEntry>(snippets, snippet_id@) {
                &&& answered(r) == Err::<(), Seq<char>>(snippet_missing(snippet_id@))
                &&& *final(file) == *old(file)
            } else {
                let place = place_of::<SnippetEntry>(snippets, snippet_id@);
                &&& r matches Ok(Some(name)) && name@ == snippet_name(trimmed(content@))
                &&& final(file).snippets.deep_view() == snippets.update(
                    place,
                    new_snippet(snippets[place].id, trimmed(content@), now@),
                )
            }
        }),
{
    let content = trim(content);
    if is_empty(content.as_str()) {
        return Ok(None);
    }
    let ghost before = file.snippets.deep_view();
    let place: usize = find_place(&file.snippets, snippet_id);
    if place >= file.snippets.len() {
        return Err(joined("snippet not found in storage: ", snippet_id));
    }
    assert(before[place as int] == file.snippets@[place as int].deep_view());
    let mut snippet = file.snippets[place].clone();
    let name = derive_snippet_name(content.as_str());
    snippet.name = name.clone();
    snippet.content = content;
    snippet.updated_at = now.to_owned();
    let ghost changed = snippet.deep_view();
    file.snippets.set(place, snippet);
    assert(file.snippets.deep_view() =~= before.update(place as int, changed));
    Ok(Some(name))
}

/// Deletes a stored snippet, and gives back its name.
pub fn sidebar_delete_snippet(file: &mut SnippetsFile, snippet_id: &str) -> (r: Result<
    String,
    String,
>)
    ensures
        final(file).version == old(file).version,
        ({
            let snippets = old(file).snippets.deep_view();
            let place = place_of::<SnippetEntry>(snippets, snippet_id@);
            if has_entry::<SnippetEntry>(snippets, snippet_id@) {
                &&& r matches Ok(name) && name@ == snippets[place].name
                &&& final(file).snippets.deep_view() == snippets.remove(place)
            } else {
                &&& answered(r) == Err::<(), Seq<char>>(snippet_missing(snippet_id@))
                &&& *final(file) == *old(file)
            }
        }),
{
    let ghost before = file.snippets.deep_view();
    let place: usize = find_place(&file.snippets, snippet_id);
    if place >= file.snippets.len() {
        return Err(joined("snippet not found in storage: ", snippet_id));
    }
    assert(before[place as int] == file.snippets@[place as int].deep_view());
    let removed = file.snippets.remove(place);
    assert(file.snippets.deep_view() =~= before.remove(place as int));
    Ok(removed.name)
}

proof fn lemma_with_ids_members(snippets: Seq<SnippetEntryView>, snippet: SnippetEntryView)
    ensures
        with_ids(snippets).contains(snippet) <==> snippets.contains(snippet) && trimmed(
            snippet.id,
        ).len() > 0,
    decreases snippets.len(),
{
    if snippets.len() > 0 {
        let head = snippets.drop_last();
        let last = snippets.last();
        lemma_with_ids_members(head, snippet);
        assert(snippets =~= head.push(last));
        assert(head.push(last).contains(snippet) <==> head.contains(snippet) || snippet == last) by {
            broadcast use vstd::seq_lib::group_seq_properties;

        }
        assert(with_ids(head).push(last).contains(snippet) <==> with_ids(head).contains(snippet)
            || snippet == last) by {
            broadcast use vstd::seq_lib::group_seq_properties;

        }
    }
}

/// Exactly the snippets that have an id are listed, from the one that changed last.
pub proof fn law_listed_snippets(snippets: Seq<SnippetEntryView>, snippet: SnippetEntryView)
    ensures
        listed_snippets(snippets).contains(snippet) <==> snippets.contains(snippet) && trimmed(
            snippet.id,
        ).len() > 0,
        crate::order::in_order::<SnippetEntry>(listed_snippets(snippets), true),
{
    broadcast use vstd::seq_lib::group_to_multiset_ensures;

    let kept = with_ids(snippets);
    lemma_with_ids_members(snippets, snippet);
    law_sorted_is_ordered::<SnippetEntry>(kept, true);
    let shown = listed_snippets(snippets);
    assert(shown.to_multiset().count(snippet) == kept.to_multiset().count(snippet));
    assert(shown.contains(snippet) <==> shown.to_multiset().count(snippet) > 0);
    assert(kept.contains(snippet) <==> kept.to_multiset().count(snippet) > 0);
}

/// A snippet with an id that is not blank and that no other has is listed with its content: what was
/// created or edited is what is inserted.
pub proof fn law_snippet_content_is_found(snippets: Seq<SnippetEntryView>, k: int)
    requires
        0 <= k < snippets.len(),
        trimmed(snippets[k].id).len() > 0,
        forall|i: int|
            0 <= i < snippets.len() && i != k ==> (#[trigger] snippets[i]).id != snippets[k].id,
    ensures
        has_entry::<SnippetEntry>(listed_snippets(snippets), snippets[k].id),
        listed_snippets(snippets)[place_of::<SnippetEntry>(
            listed_snippets(snippets),
            snippets[k].id,
        )] == snippets[k],
{
    let id = snippets[k].id;
    let shown = listed_snippets(snippets);
    let place = place_of::<SnippetEntry>(shown, id);
    law_listed_snippets(snippets, snippets[k]);
    lemma_place_of::<SnippetEntry>(shown, id);
    let at = choose|at: int| 0 <= at < shown.len() && shown[at] == snippets[k];
    if place < shown.len() {
        law_listed_snippets(snippets, shown[place]);
        assert(shown.contains(shown[place]));
        let j = choose|j: int| 0 <= j < snippets.len() && snippets[j] == shown[place];
        assert(snippets[j].id == id);
    } else {
        assert(shown[at].id != id);
    }
}

} // verus!
