//! The order of text, and stable sorting by it.
use vstd::prelude::*;

use crate::text::chars_of;

verus! {

/// `a` comes strictly before `b`: at the first place where they differ its character is smaller, or
/// it is a proper beginning of `b`.
pub open spec fn text_before(a: Seq<char>, b: Seq<char>) -> bool
    decreases a.len(),
{
    if b.len() == 0 {
        false
    } else if a.len() == 0 {
        true
    } else if a[0] != b[0] {
        (a[0] as int) < (b[0] as int)
    } else {
        text_before(a.skip(1), b.skip(1))
    }
}

/// Whether `a` comes strictly before `b`.
pub fn is_before(a: &str, b: &str) -> (r: bool)
    ensures
        r == text_before(a@, b@),
{
    let left = chars_of(a);
    let right = chars_of(b);
    let mut i: usize = 0;
    assert(left@.skip(0) =~= left@);
    assert(right@.skip(0) =~= right@);
    while i < left.len() && i < right.len()
        invariant
            i <= left@.len(),
            i <= right@.len(),
            left@ == a@,
            right@ == b@,
            text_before(a@, b@) == text_before(left@.skip(i as int), right@.skip(i as int)),
        decreases left@.len() - i,
    {
        let x = left[i];
        let y = right[i];
        if x != y {
            return x < y;
        }
        assert(left@.skip(i as int).skip(1) =~= left@.skip(i + 1));
        assert(right@.skip(i as int).skip(1) =~= right@.skip(i + 1));
        i = i + 1;
    }
    i < right.len()
}

/// Of two texts exactly one of these holds: the first comes before, they are equal, the second
/// comes before.
pub proof fn law_text_order_total(a: Seq<char>, b: Seq<char>)
    ensures
        text_before(a, b) || a == b || text_before(b, a),
        !(text_before(a, b) && text_before(b, a)),
        a == b ==> !text_before(a, b),
    decreases a.len(),
{
    if a.len() > 0 && b.len() > 0 && a[0] == b[0] {
        law_text_order_total(a.skip(1), b.skip(1));
        if a.skip(1) == b.skip(1) {
            assert(a =~= seq![a[0]] + a.skip(1));
            assert(b =~= seq![b[0]] + b.skip(1));
            assert(a == b);
        }
    } else if a.len() == 0 && b.len() == 0 {
        assert(a =~= b);
    }
}

/// The order of text is transitive.
pub proof fn law_text_order_transitive(a: Seq<char>, b: Seq<char>, c: Seq<char>)
    requires
        text_before(a, b),
        text_before(b, c),
    ensures
        text_before(a, c),
    decreases a.len(),
{
    if a.len() > 0 && b.len() > 0 && c.len() > 0 && a[0] == b[0] && b[0] == c[0] {
        law_text_order_transitive(a.skip(1), b.skip(1), c.skip(1));
    }
}

// ---------------------------------------------------------------------------
// Sorting
// ---------------------------------------------------------------------------

/// Something that is sorted by a text.
pub trait Keyed: DeepView + Sized {
    /// The text by which a value is sorted.
    spec fn key_of(value: Self::V) -> Seq<char>;

    /// The text by which the value is sorted.
    fn key(&self) -> (r: String)
        ensures
            r@ == Self::key_of(self.deep_view()),
    ;
}

/// `x` has to come before `y`.
pub open spec fn precedes<T: Keyed>(x: T::V, y: T::V, descending: bool) -> bool {
    if descending {
        text_before(T::key_of(y), T::key_of(x))
    } else {
        text_before(T::key_of(x), T::key_of(y))
    }
}

/// `items` with `item` in its place: before those that it has to precede at the end.
pub open spec fn inserted<T: Keyed>(items: Seq<T::V>, item: T::V, descending: bool) -> Seq<T::V>
    decreases items.len(),
{
    if items.len() > 0 && precedes::<T>(item, items.last(), descending) {
        inserted::<T>(items.drop_last(), item, descending).push(items.last())
    } else {
        items.push(item)
    }
}

/// `items` in order of their texts; items with equal texts stay in the order they have.
pub open spec fn sorted<T: Keyed>(items: Seq<T::V>, descending: bool) -> Seq<T::V>
    decreases items.len(),
{
    if items.len() == 0 {
        Seq::empty()
    } else {
        inserted::<T>(sorted::<T>(items.drop_last(), descending), items.last(), descending)
    }
}

fn has_to_precede<T: Keyed>(x: &T, y: &T, descending: bool) -> (r: bool)
    ensures
        r == precedes::<T>(x.deep_view(), y.deep_view(), descending),
{
    if descending {
        is_before(y.key().as_str(), x.key().as_str())
    } else {
        is_before(x.key().as_str(), y.key().as_str())
    }
}

/// `items` in order of their texts; items with equal texts stay in the order they have.
pub fn stable_sort<T: Keyed>(items: Vec<T>, descending: bool) -> (r: Vec<T>)
    ensures
        r.deep_view() == sorted::<T>(items.deep_view(), descending),
{
    let ghost all = items.deep_view();
    let mut rest = items;
    let mut out: Vec<T> = Vec::new();
    let ghost mut done: int = 0;
    assert(all.take(0) =~= Seq::<T::V>::empty());
    assert(all.skip(0) =~= all);
    assert(out.deep_view() =~= Seq::<T::V>::empty());
    while rest.len() > 0
        invariant
            0 <= done <= all.len(),
            rest.deep_view() == all.skip(done),
            rest@.len() == all.len() - done,
            out.deep_view() == sorted::<T>(all.take(done), descending),
        decreases rest@.len(),
    {
        let ghost before = out.deep_view();
        let ghost remaining = rest.deep_view();
        let item = rest.remove(0);
        let ghost view = item.deep_view();
        proof {
            assert(remaining[0] == view);
            assert(rest.deep_view() =~= remaining.skip(1));
            assert(all.skip(done).skip(1) =~= all.skip(done + 1));
            assert(all.take(done + 1).drop_last() =~= all.take(done));
            assert(all.take(done + 1).last() == view);
        }
        let mut place: usize = out.len();
        assert(before.take(place as int) =~= before);
        assert(inserted::<T>(before, view, descending) =~= inserted::<T>(
            before.take(place as int),
            view,
            descending,
        ) + before.skip(place as int));
        while place > 0 && has_to_precede(&item, &out[place - 1], descending)
            invariant
                place <= out@.len(),
                before == out.deep_view(),
                view == item.deep_view(),
                inserted::<T>(before, view, descending) == inserted::<T>(
                    before.take(place as int),
                    view,
                    descending,
                ) + before.skip(place as int),
            decreases place,
        {
            proof {
                let head = before.take(place as int);
                assert(head.last() == out@[place - 1].deep_view());
                assert(head.drop_last() =~= before.take(place - 1));
                assert(inserted::<T>(head.drop_last(), view, descending).push(head.last())
                    + before.skip(place as int) =~= inserted::<T>(
                    head.drop_last(),
                    view,
                    descending,
                ) + before.skip(place - 1));
            }
            place = place - 1;
        }
        proof {
            if place > 0 {
                assert(before.take(place as int).last() == out@[place - 1].deep_view());
            }
        }
        out.insert(place, item);
        proof {
            assert(out.deep_view() =~= before.insert(place as int, view));
            assert(before.insert(place as int, view) =~= before.take(place as int).push(view)
                + before.skip(place as int));
            done = done + 1;
        }
    }
    assert(all.take(done) =~= all);
    out
}

proof fn lemma_inserted_shape<T: Keyed>(items: Seq<T::V>, item: T::V, descending: bool)
    ensures
        inserted::<T>(items, item, descending).len() == items.len() + 1,
        inserted::<T>(items, item, descending).to_multiset() == items.to_multiset().insert(item),
        forall|i: int|
            0 <= i < items.len() + 1 ==> #[trigger] inserted::<T>(items, item, descending)[i] == item
                || items.contains(inserted::<T>(items, item, descending)[i]),
    decreases items.len(),
{
    broadcast use vstd::seq_lib::group_to_multiset_ensures;

    let result = inserted::<T>(items, item, descending);
    if items.len() > 0 && precedes::<T>(item, items.last(), descending) {
        let head = items.drop_last();
        lemma_inserted_shape::<T>(head, item, descending);
        assert(items =~= head.push(items.last()));
        let part = inserted::<T>(head, item, descending);
        assert(result.to_multiset() =~= items.to_multiset().insert(item));
        assert forall|i: int| 0 <= i < items.len() + 1 implies #[trigger] result[i] == item
            || items.contains(result[i]) by {
            if i < part.len() {
                assert(result[i] == part[i]);
                if part[i] != item {
                    let j = choose|j: int| 0 <= j < head.len() && head[j] == part[i];
                    assert(items[j] == part[i]);
                }
            } else {
                assert(items[items.len() - 1] == result[i]);
            }
        }
    } else {
        assert forall|i: int| 0 <= i < items.len() + 1 implies #[trigger] result[i] == item
            || items.contains(result[i]) by {
            if i < items.len() {
                assert(items[i] == result[i]);
            }
        }
    }
}

/// No item that has to come before another stands after it.
pub open spec fn in_order<T: Keyed>(items: Seq<T::V>, descending: bool) -> bool {
    forall|i: int, j: int|
        0 <= i < j < items.len() ==> !precedes::<T>(
            #[trigger] items[j],
            #[trigger] items[i],
            descending,
        )
}

proof fn lemma_inserted_in_order<T: Keyed>(items: Seq<T::V>, item: T::V, descending: bool)
    requires
        in_order::<T>(items, descending),
    ensures
        in_order::<T>(inserted::<T>(items, item, descending), descending),
    decreases items.len(),
{
    let result = inserted::<T>(items, item, descending);
    if items.len() > 0 && precedes::<T>(item, items.last(), descending) {
        let head = items.drop_last();
        let last = items.last();
        lemma_inserted_in_order::<T>(head, item, descending);
        lemma_inserted_shape::<T>(head, item, descending);
        let part = inserted::<T>(head, item, descending);
        assert forall|i: int, j: int| 0 <= i < j < result.len() implies !precedes::<T>(
            #[trigger] result[j],
            #[trigger] result[i],
            descending,
        ) by {
            if j < part.len() {
                assert(result[i] == part[i] && result[j] == part[j]);
            } else {
                assert(result[i] == part[i]);
                if part[i] == item {
                    law_text_order_total(T::key_of(item), T::key_of(last));
                } else {
                    let k = choose|k: int| 0 <= k < head.len() && head[k] == part[i];
                    assert(items[k] == part[i]);
                    assert(items[items.len() - 1] == last);
                }
            }
        }
    } else {
        assert forall|i: int, j: int| 0 <= i < j < result.len() implies !precedes::<T>(
            #[trigger] result[j],
            #[trigger] result[i],
            descending,
        ) by {
            if j < items.len() {
                assert(result[i] == items[i] && result[j] == items[j]);
            } else {
                let last = items.last();
                assert(result[i] == items[i]);
                if precedes::<T>(item, items[i], descending) {
                    law_text_order_total(T::key_of(item), T::key_of(last));
                    law_text_order_total(T::key_of(items[i]), T::key_of(last));
                    if i < items.len() - 1 {
                        assert(!precedes::<T>(items[items.len() - 1], items[i], descending));
                        if T::key_of(item) != T::key_of(last) && T::key_of(items[i])
                            != T::key_of(last) {
                            if descending {
                                law_text_order_transitive(
                                    T::key_of(last),
                                    T::key_of(items[i]),
                                    T::key_of(item),
                                );
                            } else {
                                law_text_order_transitive(
                                    T::key_of(item),
                                    T::key_of(items[i]),
                                    T::key_of(last),
                                );
                            }
                        }
                    }
                }
            }
        }
    }
}

/// Sorting puts the items in order and keeps exactly them.
pub proof fn law_sorted_is_ordered<T: Keyed>(items: Seq<T::V>, descending: bool)
    ensures
        in_order::<T>(sorted::<T>(items, descending), descending),
        sorted::<T>(items, descending).to_multiset() == items.to_multiset(),
        sorted::<T>(items, descending).len() == items.len(),
    decreases items.len(),
{
    broadcast use vstd::seq_lib::group_to_multiset_ensures;

    if items.len() > 0 {
        let head = items.drop_last();
        law_sorted_is_ordered::<T>(head, descending);
        lemma_inserted_in_order::<T>(sorted::<T>(head, descending), items.last(), descending);
        lemma_inserted_shape::<T>(sorted::<T>(head, descending), items.last(), descending);
        assert(items =~= head.push(items.last()));
    } else {
        assert(items =~= Seq::<T::V>::empty());
    }
}

/// The items with this text, in the order they have.
pub open spec fn with_key<T: Keyed>(items: Seq<T::V>, key: Seq<char>) -> Seq<T::V>
    decreases items.len(),
{
    if items.len() == 0 {
        Seq::empty()
    } else if T::key_of(items.last()) == key {
        with_key::<T>(items.drop_last(), key).push(items.last())
    } else {
        with_key::<T>(items.drop_last(), key)
    }
}

proof fn lemma_inserted_with_key<T: Keyed>(
    items: Seq<T::V>,
    item: T::V,
    descending: bool,
    key: Seq<char>,
)
    ensures
        with_key::<T>(inserted::<T>(items, item, descending), key) == with_key::<T>(
            items.push(item),
            key,
        ),
    decreases items.len(),
{
    if items.len() > 0 && precedes::<T>(item, items.last(), descending) {
        let head = items.drop_last();
        let last = items.last();
        lemma_inserted_with_key::<T>(head, item, descending, key);
        law_text_order_total(T::key_of(item), T::key_of(last));
        let part = inserted::<T>(head, item, descending);
        assert(part.push(last).drop_last() =~= part);
        assert(head.push(item).drop_last() =~= head);
        assert(items.push(item).drop_last() =~= items);
        assert(with_key::<T>(items, key) == if T::key_of(last) == key {
            with_key::<T>(head, key).push(last)
        } else {
            with_key::<T>(head, key)
        });
        assert(with_key::<T>(head.push(item), key) == if T::key_of(item) == key {
            with_key::<T>(head, key).push(item)
        } else {
            with_key::<T>(head, key)
        });
    }
}

/// Sorting is stable: of the items with one and the same text, each stays before the next.
pub proof fn law_sorted_is_stable<T: Keyed>(items: Seq<T::V>, descending: bool, key: Seq<char>)
    ensures
        with_key::<T>(sorted::<T>(items, descending), key) == with_key::<T>(items, key),
    decreases items.len(),
{
    if items.len() > 0 {
        let before = sorted::<T>(items.drop_last(), descending);
        law_sorted_is_stable::<T>(items.drop_last(), descending, key);
        lemma_inserted_with_key::<T>(before, items.last(), descending, key);
        assert(before.push(items.last()).drop_last() =~= before);
    }
}

} // verus!
