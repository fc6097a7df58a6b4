//! Stable sorting by name, letter case aside.
use vstd::multiset::*;
use vstd::prelude::*;
use vstd::seq_lib::*;

use crate::text::{lower_text, to_chars, to_lower};

verus! {

/// Whether a text comes before another or equals it, character by character
/// in the order of the code points.
pub open spec fn at_most(a: Seq<char>, b: Seq<char>) -> bool
    decreases a.len(),
{
    if a.len() == 0 {
        true
    } else if b.len() == 0 {
        false
    } else {
        a[0] < b[0] || (a[0] == b[0] && at_most(a.drop_first(), b.drop_first()))
    }
}

/// Whether the first text comes before the second or equals it.
pub fn text_at_most(a: &str, b: &str) -> (before: bool)
    ensures
        before == at_most(a@, b@),
{
    let left = to_chars(a);
    let right = to_chars(b);
    let mut i: usize = 0;
    assert(left@.skip(0) =~= a@);
    assert(right@.skip(0) =~= b@);
    while i < left.len()
        invariant
            i <= left@.len(),
            i <= right@.len(),
            at_most(a@, b@) == at_most(left@.skip(i as int), right@.skip(i as int)),
        decreases left@.len() - i,
    {
        if i == right.len() {
            return false;
        }
        if left[i] != right[i] {
            return left[i] < right[i];
        }
        assert(left@.skip(i as int).drop_first() =~= left@.skip(i + 1));
        assert(right@.skip(i as int).drop_first() =~= right@.skip(i + 1));
        i += 1;
    }
    true
}

/// The order of texts is total.
pub proof fn at_most_total(a: Seq<char>, b: Seq<char>)
    ensures
        at_most(a, b) || at_most(b, a),
    decreases a.len(),
{
    if a.len() > 0 && b.len() > 0 {
        at_most_total(a.drop_first(), b.drop_first());
    }
}

/// The order of texts is transitive.
pub proof fn at_most_transitive(a: Seq<char>, b: Seq<char>, c: Seq<char>)
    requires
        at_most(a, b),
        at_most(b, c),
    ensures
        at_most(a, c),
    decreases a.len(),
{
    if a.len() > 0 && a[0] == b[0] && b[0] == c[0] {
        at_most_transitive(a.drop_first(), b.drop_first(), c.drop_first());
    }
}

/// Texts that come before one another are equal.
pub proof fn at_most_antisymmetric(a: Seq<char>, b: Seq<char>)
    requires
        at_most(a, b),
        at_most(b, a),
    ensures
        a == b,
    decreases a.len(),
{
    if a.len() > 0 {
        assert(b.len() > 0 && a[0] == b[0]);
        let x = a.drop_first();
        let y = b.drop_first();
        at_most_antisymmetric(x, y);
        assert forall|i: int| 0 <= i < a.len() implies a[i] == b[i] by {
            if i > 0 {
                assert(x[i - 1] == a[i] && y[i - 1] == b[i]);
            }
        }
        assert(x.len() == a.len() - 1 && y.len() == b.len() - 1);
    } else {
        assert(b.len() == 0);
    }
    assert(a =~= b);
}

/// A sorted sequence with one more item, put behind all whose key comes before
/// its own or equals it.
pub open spec fn inserted<A>(sorted: Seq<A>, item: A, key: spec_fn(A) -> Seq<char>) -> Seq<A>
    decreases sorted.len(),
{
    if sorted.len() == 0 || at_most(key(sorted.last()), key(item)) {
        sorted.push(item)
    } else {
        inserted(sorted.drop_last(), item, key).push(sorted.last())
    }
}

/// The items in the order of their keys, those with equal keys in the order in
/// which they stand.
pub open spec fn stable_sort<A>(items: Seq<A>, key: spec_fn(A) -> Seq<char>) -> Seq<A>
    decreases items.len(),
{
    if items.len() == 0 {
        items
    } else {
        inserted(stable_sort(items.drop_last(), key), items.last(), key)
    }
}

/// Whether the keys of a sequence stand in order.
pub open spec fn sorted_by<A>(items: Seq<A>, key: spec_fn(A) -> Seq<char>) -> bool {
    forall|i: int, j: int|
        0 <= i <= j < items.len() ==> #[trigger] at_most(key(items[i]), key(items[j]))
}

/// The items with the given key, in order.
pub open spec fn with_key<A>(
    items: Seq<A>,
    key: spec_fn(A) -> Seq<char>,
    value: Seq<char>,
) -> Seq<A> {
    items.filter(|item: A| key(item) == value)
}

proof fn inserted_facts<A>(sorted: Seq<A>, item: A, key: spec_fn(A) -> Seq<char>)
    requires
        sorted_by(sorted, key),
    ensures
        inserted(sorted, item, key).len() == sorted.len() + 1,
        inserted(sorted, item, key).to_multiset() == sorted.to_multiset().insert(item),
        sorted_by(inserted(sorted, item, key), key),
        forall|i: int|
            0 <= i < inserted(sorted, item, key).len() ==> sorted.contains(
                #[trigger] inserted(sorted, item, key)[i],
            ) || inserted(sorted, item, key)[i] == item,
    decreases sorted.len(),
{
    broadcast use group_to_multiset_ensures;

    let out = inserted(sorted, item, key);
    if sorted.len() == 0 || at_most(key(sorted.last()), key(item)) {
        at_most_total(key(item), key(item));
        assert forall|i: int, j: int| 0 <= i <= j < out.len() implies #[trigger] at_most(
            key(out[i]),
            key(out[j]),
        ) by {
            if j == sorted.len() && i < j {
                assert(at_most(key(sorted[i]), key(sorted[sorted.len() - 1])));
                at_most_transitive(key(sorted[i]), key(sorted.last()), key(item));
            }
        }
        assert forall|i: int| 0 <= i < out.len() implies sorted.contains(#[trigger] out[i])
            || out[i] == item by {
            if i < sorted.len() {
                assert(out[i] == sorted[i]);
            }
        }
    } else {
        let front = sorted.drop_last();
        assert forall|i: int, j: int| 0 <= i <= j < front.len() implies #[trigger] at_most(
            key(front[i]),
            key(front[j]),
        ) by {
            assert(at_most(key(sorted[i]), key(sorted[j])));
        }
        inserted_facts(front, item, key);
        let inner = inserted(front, item, key);
        let last = sorted.last();
        assert(sorted =~= front.push(last));
        assert(out.to_multiset() =~= sorted.to_multiset().insert(item));
        at_most_total(key(last), key(item));
        at_most_total(key(last), key(last));
        assert forall|i: int| 0 <= i < inner.len() implies at_most(
            key(#[trigger] inner[i]),
            key(last),
        ) by {
            if front.contains(inner[i]) {
                let k = choose|k: int| 0 <= k < front.len() && front[k] == inner[i];
                assert(at_most(key(sorted[k]), key(sorted[sorted.len() - 1])));
            }
        }
        assert forall|i: int, j: int| 0 <= i <= j < out.len() implies #[trigger] at_most(
            key(out[i]),
            key(out[j]),
        ) by {
            if j < inner.len() {
                assert(at_most(key(inner[i]), key(inner[j])));
            } else if i < inner.len() {
                assert(at_most(key(inner[i]), key(last)));
            }
        }
        assert forall|i: int| 0 <= i < out.len() implies sorted.contains(#[trigger] out[i])
            || out[i] == item by {
            if i < inner.len() {
                if front.contains(inner[i]) {
                    let k = choose|k: int| 0 <= k < front.len() && front[k] == inner[i];
                    assert(sorted[k] == inner[i]);
                }
            } else {
                assert(out[i] == sorted[sorted.len() - 1]);
            }
        }
    }
}

proof fn inserted_is_stable<A>(
    sorted: Seq<A>,
    item: A,
    key: spec_fn(A) -> Seq<char>,
    value: Seq<char>,
)
    ensures
        with_key(inserted(sorted, item, key), key, value) == (if key(item) == value {
            with_key(sorted, key, value).push(item)
        } else {
            with_key(sorted, key, value)
        }),
    decreases sorted.len(),
{
    reveal(Seq::filter);
    let keep = |x: A| key(x) == value;
    if sorted.len() == 0 || at_most(key(sorted.last()), key(item)) {
        assert(sorted.push(item).drop_last() =~= sorted);
    } else {
        let front = sorted.drop_last();
        let last = sorted.last();
        inserted_is_stable(front, item, key, value);
        let inner = inserted(front, item, key);
        assert(inner.push(last).drop_last() =~= inner);
        at_most_total(key(last), key(item));
        assert(key(last) != key(item));
    }
}

/// A stable sort keeps every item, puts the keys in order, and keeps the order
/// of items with equal keys.
pub proof fn stable_sort_sorts<A>(items: Seq<A>, key: spec_fn(A) -> Seq<char>, value: Seq<char>)
    ensures
        stable_sort(items, key).len() == items.len(),
        stable_sort(items, key).to_multiset() == items.to_multiset(),
        sorted_by(stable_sort(items, key), key),
        with_key(stable_sort(items, key), key, value) == with_key(items, key, value),
    decreases items.len(),
{
    broadcast use group_to_multiset_ensures;

    reveal(Seq::filter);
    if items.len() > 0 {
        let front = items.drop_last();
        stable_sort_sorts(front, key, value);
        inserted_facts(stable_sort(front, key), items.last(), key);
        inserted_is_stable(stable_sort(front, key), items.last(), key, value);
        assert(items =~= front.push(items.last()));
    }
}

/// A stable sort has the same items as the sequence it sorts.
pub proof fn stable_sort_keeps<A>(items: Seq<A>, key: spec_fn(A) -> Seq<char>, item: A)
    ensures
        stable_sort(items, key).contains(item) <==> items.contains(item),
{
    broadcast use group_to_multiset_ensures;

    stable_sort_sorts(items, key, Seq::empty());
    assert(stable_sort(items, key).contains(item) <==> stable_sort(items, key).to_multiset().count(
        item,
    ) > 0);
    assert(items.contains(item) <==> items.to_multiset().count(item) > 0);
}

/// Sorting goes along with a map of the items that keeps their keys.
pub proof fn stable_sort_maps<A, B>(
    items: Seq<A>,
    key: spec_fn(A) -> Seq<char>,
    f: spec_fn(A) -> B,
    mapped_key: spec_fn(B) -> Seq<char>,
)
    requires
        forall|a: A| #[trigger] mapped_key(f(a)) == key(a),
    ensures
        stable_sort(items, key).map_values(f) == stable_sort(items.map_values(f), mapped_key),
    decreases items.len(),
{
    let mapped = items.map_values(f);
    if items.len() > 0 {
        stable_sort_maps(items.drop_last(), key, f, mapped_key);
        assert(mapped.drop_last() =~= items.drop_last().map_values(f));
        inserted_maps(stable_sort(items.drop_last(), key), items.last(), key, f, mapped_key);
    } else {
        assert(stable_sort(items, key).map_values(f) =~= mapped);
    }
}

proof fn inserted_maps<A, B>(
    sorted: Seq<A>,
    item: A,
    key: spec_fn(A) -> Seq<char>,
    f: spec_fn(A) -> B,
    mapped_key: spec_fn(B) -> Seq<char>,
)
    requires
        forall|a: A| #[trigger] mapped_key(f(a)) == key(a),
    ensures
        inserted(sorted, item, key).map_values(f) == inserted(
            sorted.map_values(f),
            f(item),
            mapped_key,
        ),
    decreases sorted.len(),
{
    let mapped = sorted.map_values(f);
    assert(mapped_key(f(item)) == key(item));
    if sorted.len() > 0 {
        assert(mapped.last() == f(sorted.last()));
        assert(mapped_key(f(sorted.last())) == key(sorted.last()));
    }
    if sorted.len() == 0 || at_most(key(sorted.last()), key(item)) {
        assert(sorted.push(item).map_values(f) =~= mapped.push(f(item)));
    } else {
        inserted_maps(sorted.drop_last(), item, key, f, mapped_key);
        assert(mapped.drop_last() =~= sorted.drop_last().map_values(f));
        assert(inserted(sorted, item, key).map_values(f) =~= inserted(
            sorted.drop_last(),
            item,
            key,
        ).map_values(f).push(f(sorted.last())));
    }
}

/// Something with a name to sort it by.
pub trait Named: Sized {
    /// The name as a text.
    spec fn name_text(self) -> Seq<char>;

    /// The name.
    fn name_str(&self) -> (name: &str)
        ensures
            name@ == self.name_text(),
    ;
}

impl Named for String {
    open spec fn name_text(self) -> Seq<char> {
        self@
    }

    fn name_str(&self) -> (name: &str) {
        self.as_str()
    }
}

/// The key by which named things are sorted: the name in lower case.
pub open spec fn name_key<T: Named>() -> spec_fn(T) -> Seq<char> {
    |item: T| lower_text(item.name_text())
}

/// Sorts by name in lower case; things with equal keys keep their order.
pub fn sort_by_name<T: Named>(items: &mut Vec<T>)
    ensures
        final(items)@ == stable_sort(old(items)@, name_key::<T>()),
{
    let ghost all = items@;
    let ghost key = name_key::<T>();
    let n = items.len();
    let mut i: usize = 0;
    assert(all.take(0) =~= Seq::empty());
    assert(items@ =~= stable_sort(all.take(0), key) + all.skip(0));
    while i < n
        invariant
            i <= n == all.len(),
            key == name_key::<T>(),
            items@ == stable_sort(all.take(i as int), key) + all.skip(i as int),
            stable_sort(all.take(i as int), key).len() == i,
        decreases n - i,
    {
        let ghost sorted = stable_sort(all.take(i as int), key);
        let item = items.remove(i);
        assert(item == all[i as int]);
        assert(items@ =~= sorted + all.skip(i + 1));
        let item_key = to_lower(item.name_str());
        let mut place = i;
        assert(sorted.take(i as int) =~= sorted);
        assert(inserted(sorted, item, key) + sorted.skip(i as int) =~= inserted(sorted, item, key));
        while place > 0 && !text_at_most(
            to_lower(items[place - 1].name_str()).as_str(),
            item_key.as_str(),
        )
            invariant
                place <= i,
                i < n == all.len(),
                key == name_key::<T>(),
                sorted.len() == i,
                items@ == sorted + all.skip(i + 1),
                item_key@ == lower_text(item.name_text()),
                inserted(sorted, item, key) == inserted(sorted.take(place as int), item, key)
                    + sorted.skip(place as int),
            decreases place,
        {
            let ghost front = sorted.take(place as int);
            assert(front.last() == items@[place - 1]);
            assert(front.drop_last() =~= sorted.take(place - 1));
            assert(inserted(front, item, key) == inserted(
                sorted.take(place - 1),
                item,
                key,
            ).push(front.last()));
            assert(inserted(front, item, key) + sorted.skip(place as int) =~= inserted(
                sorted.take(place - 1),
                item,
                key,
            ) + sorted.skip(place - 1));
            place -= 1;
        }
        let ghost front = sorted.take(place as int);
        assert(place > 0 ==> front.last() == items@[place - 1]);
        assert(inserted(front, item, key) == front.push(item));
        items.insert(place, item);
        proof {
            assert(all.take(i + 1).drop_last() =~= all.take(i as int));
            stable_sort_sorts(all.take(i + 1), key, Seq::empty());
            assert(items@ =~= front.push(item) + sorted.skip(place as int) + all.skip(i + 1));
        }
        i += 1;
    }
    assert(all.take(n as int) =~= all);
    assert(items@ =~= stable_sort(all, key));
}

/// Texts are ordered by their first difference: the one with the smaller
/// character there comes first, and a text comes before its continuations.
pub proof fn texts_are_ordered_by_their_first_difference(a: Seq<char>, b: Seq<char>, i: int)
    requires
        0 <= i <= a.len(),
        i <= b.len(),
        forall|j: int| 0 <= j < i ==> a[j] == b[j],
    ensures
        i < a.len() && i < b.len() && a[i] < b[i] ==> at_most(a, b) && !at_most(b, a),
        i == a.len() ==> at_most(a, b),
        i == a.len() && i < b.len() ==> !at_most(b, a),
    decreases i,
{
    if i > 0 {
        let x = a.drop_first();
        let y = b.drop_first();
        assert forall|j: int| 0 <= j < i - 1 implies x[j] == y[j] by {
            assert(a[j + 1] == b[j + 1]);
        }
        assert(a[0] == b[0]);
        texts_are_ordered_by_their_first_difference(x, y, i - 1);
        if i < a.len() && i < b.len() {
            assert(x[i - 1] == a[i] && y[i - 1] == b[i]);
        }
    }
}

/// Named things are sorted by their names in lower case.
pub proof fn names_are_sorted_in_lower_case<T: Named>(item: T)
    ensures
        name_key::<T>()(item) == lower_text(item.name_text()),
{
}

} // verus!
