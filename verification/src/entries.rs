//! Lists of entries that are found by their ids.
use vstd::prelude::*;

verus! {

/// An entry with an id.
pub trait Identified: DeepView + Sized {
    /// The id of a value.
    spec fn id_of(value: Self::V) -> Seq<char>;

    /// Whether the entry has this id.
    fn has_id(&self, id: &str) -> (r: bool)
        ensures
            r == (Self::id_of(self.deep_view()) == id@),
    ;
}

/// Where the first entry with this id stands; the length of the list where there is none.
pub open spec fn place_of<T: Identified>(entries: Seq<T::V>, id: Seq<char>) -> int
    decreases entries.len(),
{
    if entries.len() == 0 {
        0
    } else if T::id_of(entries[0]) == id {
        0
    } else {
        1 + place_of::<T>(entries.skip(1), id)
    }
}

/// Some entry has this id.
pub open spec fn has_entry<T: Identified>(entries: Seq<T::V>, id: Seq<char>) -> bool {
    place_of::<T>(entries, id) < entries.len()
}

/// The place of an id is where an entry has it and none before does.
pub proof fn lemma_place_of<T: Identified>(entries: Seq<T::V>, id: Seq<char>)
    ensures
        0 <= place_of::<T>(entries, id) <= entries.len(),
        has_entry::<T>(entries, id) ==> T::id_of(entries[place_of::<T>(entries, id)]) == id,
        forall|i: int|
            0 <= i < place_of::<T>(entries, id) ==> T::id_of(#[trigger] entries[i]) != id,
    decreases entries.len(),
{
    if entries.len() > 0 && T::id_of(entries[0]) != id {
        let rest = entries.skip(1);
        lemma_place_of::<T>(rest, id);
        assert forall|i: int| 0 <= i < place_of::<T>(entries, id) implies T::id_of(
            #[trigger] entries[i],
        ) != id by {
            if i > 0 {
                assert(rest[i - 1] == entries[i]);
            }
        }
    }
}

/// Where the first entry with this id stands; the length of the list where there is none.
pub fn find_place<T: Identified>(entries: &Vec<T>, id: &str) -> (r: usize)
    ensures
        r == place_of::<T>(entries.deep_view(), id@),
        r <= entries@.len(),
{
    let ghost all = entries.deep_view();
    let mut i: usize = 0;
    assert(all.skip(0) =~= all);
    while i < entries.len()
        invariant
            i <= entries@.len(),
            all == entries.deep_view(),
            place_of::<T>(all, id@) == i + place_of::<T>(all.skip(i as int), id@),
        decreases entries@.len() - i,
    {
        assert(all.skip(i as int)[0] == entries@[i as int].deep_view());
        assert(all.skip(i as int).skip(1) =~= all.skip(i + 1));
        if entries[i].has_id(id) {
            return i;
        }
        i = i + 1;
    }
    i
}

/// Lists whose entries have the same ids in the same order have every id at the same place.
pub proof fn lemma_same_ids<T: Identified>(a: Seq<T::V>, b: Seq<T::V>, id: Seq<char>)
    requires
        a.len() == b.len(),
        forall|i: int|
            0 <= i < a.len() ==> T::id_of(#[trigger] a[i]) == T::id_of(#[trigger] b[i]),
    ensures
        place_of::<T>(a, id) == place_of::<T>(b, id),
    decreases a.len(),
{
    if a.len() > 0 {
        assert(T::id_of(a[0]) == T::id_of(b[0]));
        if T::id_of(a[0]) != id {
            assert forall|i: int| 0 <= i < a.skip(1).len() implies T::id_of(
                #[trigger] a.skip(1)[i],
            ) == T::id_of(#[trigger] b.skip(1)[i]) by {
                assert(T::id_of(a[i + 1]) == T::id_of(b[i + 1]));
            }
            lemma_same_ids::<T>(a.skip(1), b.skip(1), id);
        }
    }
}

/// A change of one entry that keeps its id leaves every other entry as it was, and the changed entry
/// is found under its id.
pub proof fn law_change_is_local<T: Identified>(
    entries: Seq<T::V>,
    id: Seq<char>,
    changed: T::V,
    other: Seq<char>,
)
    requires
        has_entry::<T>(entries, id),
        T::id_of(changed) == id,
        other != id,
    ensures
        ({
            let after = entries.update(place_of::<T>(entries, id), changed);
            &&& place_of::<T>(after, other) == place_of::<T>(entries, other)
            &&& has_entry::<T>(entries, other) ==> after[place_of::<T>(after, other)]
                == entries[place_of::<T>(entries, other)]
            &&& place_of::<T>(after, id) == place_of::<T>(entries, id)
            &&& after[place_of::<T>(after, id)] == changed
        }),
{
    let place = place_of::<T>(entries, id);
    let after = entries.update(place, changed);
    lemma_place_of::<T>(entries, id);
    lemma_place_of::<T>(entries, other);
    lemma_same_ids::<T>(entries, after, other);
    lemma_same_ids::<T>(entries, after, id);
}

/// An entry with a new id that is added behind the others is found under it, and every other entry
/// stays.
pub proof fn law_added_is_found<T: Identified>(entries: Seq<T::V>, added: T::V, other: Seq<char>)
    requires
        !has_entry::<T>(entries, T::id_of(added)),
    ensures
        place_of::<T>(entries.push(added), T::id_of(added)) == entries.len(),
        has_entry::<T>(entries, other) ==> place_of::<T>(entries.push(added), other) == place_of::<
            T,
        >(entries, other),
    decreases entries.len(),
{
    let after = entries.push(added);
    if entries.len() > 0 {
        let rest = entries.skip(1);
        assert(after.skip(1) =~= rest.push(added));
        assert(after[0] == entries[0]);
        lemma_place_of::<T>(entries, T::id_of(added));
        law_added_is_found::<T>(rest, added, other);
    }
}

} // verus!
