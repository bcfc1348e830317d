//! Stable sorting by a strict order, as a value.

use vstd::prelude::*;

verus! {

/// `s` with `x` put behind every element that it does not go before, counted
/// from the end.
pub open spec fn insert<T>(s: Seq<T>, x: T, before: spec_fn(T, T) -> bool) -> Seq<T>
    decreases s.len(),
{
    if s.len() == 0 || !before(x, s.last()) {
        s.push(x)
    } else {
        insert(s.drop_last(), x, before).push(s.last())
    }
}

/// The stable sort of `s`.
pub open spec fn sort<T>(s: Seq<T>, before: spec_fn(T, T) -> bool) -> Seq<T>
    decreases s.len(),
{
    if s.len() == 0 {
        s
    } else {
        insert(sort(s.drop_last(), before), s.last(), before)
    }
}

/// Whether `before` is a strict order in which ties are transitive.
pub open spec fn is_order<T>(before: spec_fn(T, T) -> bool) -> bool {
    &&& forall|a: T, b: T| #[trigger] before(a, b) ==> !before(b, a)
    &&& forall|a: T, b: T, c: T|
        !#[trigger] before(b, a) && !#[trigger] before(c, b) ==> !before(c, a)
}

/// Whether nothing stands behind an element that it goes before.
pub open spec fn is_sorted<T>(s: Seq<T>, before: spec_fn(T, T) -> bool) -> bool {
    forall|i: int, j: int| 0 <= i < j < s.len() ==> !before(#[trigger] s[j], #[trigger] s[i])
}

/// Inserting where a walk from the end stops.
pub proof fn lemma_insert_at<T>(s: Seq<T>, x: T, before: spec_fn(T, T) -> bool, at: int)
    requires
        0 <= at <= s.len(),
        forall|i: int| at <= i < s.len() ==> #[trigger] before(x, s[i]),
        at > 0 ==> !before(x, s[at - 1]),
    ensures
        insert(s, x, before) == s.insert(at, x),
    decreases s.len(),
{
    if at < s.len() {
        assert(before(x, s[s.len() - 1]));
        assert forall|i: int| at <= i < s.len() - 1 implies #[trigger] before(
            x,
            s.drop_last()[i],
        ) by {
            assert(before(x, s[i]));
        }
        lemma_insert_at(s.drop_last(), x, before, at);
        assert(s.drop_last().insert(at, x).push(s.last()) =~= s.insert(at, x));
    } else {
        assert(s.push(x) =~= s.insert(at, x));
    }
}

/// Inserting adds one element and keeps the others.
pub proof fn lemma_insert_keeps<T>(s: Seq<T>, x: T, before: spec_fn(T, T) -> bool)
    ensures
        insert(s, x, before).to_multiset() == s.to_multiset().insert(x),
        insert(s, x, before).len() == s.len() + 1,
    decreases s.len(),
{
    broadcast use vstd::seq_lib::group_to_multiset_ensures;

    if s.len() == 0 || !before(x, s.last()) {
    } else {
        lemma_insert_keeps(s.drop_last(), x, before);
        assert(s.drop_last().push(s.last()) =~= s);
        assert(s.drop_last().to_multiset().insert(x).insert(s.last())
            =~= s.drop_last().to_multiset().insert(s.last()).insert(x));
    }
}

/// Sorting neither drops nor adds an element.
pub proof fn lemma_sort_keeps<T>(s: Seq<T>, before: spec_fn(T, T) -> bool)
    ensures
        sort(s, before).to_multiset() == s.to_multiset(),
        sort(s, before).len() == s.len(),
        forall|x: T| sort(s, before).contains(x) <==> #[trigger] s.contains(x),
    decreases s.len(),
{
    broadcast use vstd::seq_lib::group_to_multiset_ensures;

    if s.len() > 0 {
        lemma_sort_keeps(s.drop_last(), before);
        lemma_insert_keeps(sort(s.drop_last(), before), s.last(), before);
        assert(s.drop_last().push(s.last()) =~= s);
    }
    assert forall|x: T| sort(s, before).contains(x) <==> #[trigger] s.contains(x) by {
        assert(s.contains(x) <==> s.to_multiset().count(x) > 0);
        assert(sort(s, before).contains(x) <==> sort(s, before).to_multiset().count(x) > 0);
    }
}

proof fn lemma_insert_sorts<T>(s: Seq<T>, x: T, before: spec_fn(T, T) -> bool)
    requires
        is_order(before),
        is_sorted(s, before),
    ensures
        is_sorted(insert(s, x, before), before),
        forall|k: int|
            0 <= k < insert(s, x, before).len() ==> #[trigger] insert(s, x, before)[k] == x
                || s.contains(insert(s, x, before)[k]),
        insert(s, x, before).len() == s.len() + 1,
    decreases s.len(),
{
    let out = insert(s, x, before);
    if s.len() == 0 || !before(x, s.last()) {
        assert forall|i: int, j: int| 0 <= i < j < out.len() implies !before(
            #[trigger] out[j],
            #[trigger] out[i],
        ) by {
            if j == s.len() {
                if i < s.len() - 1 {
                    assert(!before(s[s.len() - 1], s[i]));
                }
            }
        }
        assert forall|k: int| 0 <= k < out.len() implies #[trigger] out[k] == x || s.contains(
            out[k],
        ) by {
            if k < s.len() {
                assert(out[k] == s[k]);
            }
        }
    } else {
        let front = s.drop_last();
        let inner = insert(front, x, before);
        lemma_insert_sorts(front, x, before);
        assert(out == inner.push(s.last()));
        assert forall|i: int, j: int| 0 <= i < j < out.len() implies !before(
            #[trigger] out[j],
            #[trigger] out[i],
        ) by {
            if j == inner.len() {
                assert(out[i] == inner[i]);
                if inner[i] != x {
                    assert(front.contains(inner[i]));
                    let k = choose|k: int| 0 <= k < front.len() && front[k] == inner[i];
                    assert(s[k] == inner[i]);
                    assert(!before(s[s.len() - 1], s[k]));
                }
            } else {
                assert(out[i] == inner[i] && out[j] == inner[j]);
            }
        }
        assert forall|k: int| 0 <= k < out.len() implies #[trigger] out[k] == x || s.contains(
            out[k],
        ) by {
            if k < inner.len() {
                assert(out[k] == inner[k]);
                if inner[k] != x {
                    assert(front.contains(inner[k]));
                    let m = choose|m: int| 0 <= m < front.len() && front[m] == inner[k];
                    assert(s[m] == inner[k]);
                }
            } else {
                assert(out[k] == s[s.len() - 1]);
            }
        }
    }
}

/// After sorting, nothing stands behind an element that it goes before.
pub proof fn lemma_sort_orders<T>(s: Seq<T>, before: spec_fn(T, T) -> bool)
    requires
        is_order(before),
    ensures
        is_sorted(sort(s, before), before),
    decreases s.len(),
{
    if s.len() > 0 {
        lemma_sort_orders(s.drop_last(), before);
        lemma_insert_sorts(sort(s.drop_last(), before), s.last(), before);
    }
}

/// A sequence that is in order already is its own sort.
pub proof fn lemma_sort_of_sorted<T>(s: Seq<T>, before: spec_fn(T, T) -> bool)
    requires
        is_sorted(s, before),
    ensures
        sort(s, before) == s,
    decreases s.len(),
{
    if s.len() > 0 {
        let front = s.drop_last();
        assert forall|i: int, j: int| 0 <= i < j < front.len() implies !before(
            #[trigger] front[j],
            #[trigger] front[i],
        ) by {
            assert(!before(s[j], s[i]));
        }
        lemma_sort_of_sorted(front, before);
        if front.len() > 0 {
            assert(!before(s[s.len() - 1], s[s.len() - 2]));
        }
        assert(front.push(s.last()) =~= s);
    }
}

} // verus!
