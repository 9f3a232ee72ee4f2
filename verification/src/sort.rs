//! Stable insertion sort by a strict order.

use vstd::prelude::*;

verus! {

/// `x` put into a sorted row, behind everything that it does not come before.
pub open spec fn insert_sorted<A>(s: Seq<A>, x: A, before: spec_fn(A, A) -> bool) -> Seq<A>
    decreases s.len(),
{
    if s.len() == 0 || !before(x, s.last()) {
        s.push(x)
    } else {
        insert_sorted(s.drop_last(), x, before).push(s.last())
    }
}

/// A row sorted by a strict order; what neither comes before the other stays in its order.
pub open spec fn sorted_by<A>(s: Seq<A>, before: spec_fn(A, A) -> bool) -> Seq<A>
    decreases s.len(),
{
    if s.len() == 0 {
        Seq::empty()
    } else {
        insert_sorted(sorted_by(s.drop_last(), before), s.last(), before)
    }
}

/// Where `x` comes before everything from `k` on and not before what stands at `k - 1`, it is
/// put at `k`.
pub proof fn lemma_insert_at<A>(s: Seq<A>, x: A, before: spec_fn(A, A) -> bool, k: int)
    requires
        0 <= k <= s.len(),
        forall|i: int| k <= i < s.len() ==> before(x, #[trigger] s[i]),
        k > 0 ==> !before(x, s[k - 1]),
    ensures
        insert_sorted(s, x, before) == s.insert(k, x),
    decreases s.len(),
{
    if k == s.len() {
        assert(s.insert(k, x) == s.push(x));
    } else {
        assert(before(x, s[s.len() - 1]));
        assert forall|i: int| k <= i < s.drop_last().len() implies before(
            x,
            #[trigger] s.drop_last()[i],
        ) by {
            assert(before(x, s[i]));
        }
        lemma_insert_at(s.drop_last(), x, before, k);
        assert(s.drop_last().insert(k, x).push(s.last()) == s.insert(k, x));
    }
}

/// Mapping the elements without changing their order commutes with inserting.
pub proof fn lemma_insert_map<A, B>(
    s: Seq<A>,
    x: A,
    before: spec_fn(A, A) -> bool,
    f: spec_fn(A) -> B,
    after: spec_fn(B, B) -> bool,
)
    requires
        forall|a: A, b: A| #[trigger] before(a, b) == after(f(a), f(b)),
    ensures
        insert_sorted(s, x, before).map_values(f) == insert_sorted(s.map_values(f), f(x), after),
    decreases s.len(),
{
    if s.len() == 0 {
        assert(s.push(x).map_values(f) == s.map_values(f).push(f(x)));
    } else {
        assert(s.map_values(f).last() == f(s.last()));
        assert(before(x, s.last()) == after(f(x), f(s.last())));
        if !before(x, s.last()) {
            assert(s.push(x).map_values(f) == s.map_values(f).push(f(x)));
        } else {
            lemma_insert_map(s.drop_last(), x, before, f, after);
            let inner = insert_sorted(s.drop_last(), x, before);
            assert(inner.push(s.last()).map_values(f) == inner.map_values(f).push(f(s.last())));
            assert(s.drop_last().map_values(f) == s.map_values(f).drop_last());
        }
    }
}

/// Mapping the elements without changing their order commutes with sorting.
pub proof fn lemma_sort_map<A, B>(
    s: Seq<A>,
    before: spec_fn(A, A) -> bool,
    f: spec_fn(A) -> B,
    after: spec_fn(B, B) -> bool,
)
    requires
        forall|a: A, b: A| #[trigger] before(a, b) == after(f(a), f(b)),
    ensures
        sorted_by(s, before).map_values(f) == sorted_by(s.map_values(f), after),
    decreases s.len(),
{
    if s.len() == 0 {
        assert(Seq::<A>::empty().map_values(f) == Seq::<B>::empty());
    } else {
        lemma_sort_map(s.drop_last(), before, f, after);
        lemma_insert_map(sorted_by(s.drop_last(), before), s.last(), before, f, after);
        assert(s.drop_last().map_values(f) == s.map_values(f).drop_last());
    }
}

/// Whether no element comes before one that stands ahead of it.
pub open spec fn is_sorted<A>(s: Seq<A>, before: spec_fn(A, A) -> bool) -> bool {
    forall|i: int, j: int| 0 <= i < j < s.len() ==> !before(#[trigger] s[j], #[trigger] s[i])
}

/// Whether a relation orders: nothing comes before itself, and what comes neither before the
/// other is alike for everything else.
pub open spec fn is_order<A>(before: spec_fn(A, A) -> bool) -> bool {
    &&& forall|a: A| !#[trigger] before(a, a)
    &&& forall|a: A, b: A, c: A|
        #![trigger before(a, b), before(b, c)]
        before(a, b) && before(b, c) ==> before(a, c)
    &&& forall|a: A, b: A, c: A|
        #![trigger before(a, b), before(b, c)]
        !before(a, b) && !before(b, c) ==> !before(a, c)
}

/// Inserting keeps a row sorted.
pub proof fn lemma_insert_keeps_sorted<A>(s: Seq<A>, x: A, before: spec_fn(A, A) -> bool)
    requires
        is_order(before),
        is_sorted(s, before),
    ensures
        is_sorted(insert_sorted(s, x, before), before),
        insert_sorted(s, x, before).to_multiset() == s.to_multiset().insert(x),
        insert_sorted(s, x, before).len() == s.len() + 1,
    decreases s.len(),
{
    broadcast use vstd::seq_lib::group_to_multiset_ensures;

    let r = insert_sorted(s, x, before);
    if s.len() == 0 || !before(x, s.last()) {
        assert forall|i: int, j: int| 0 <= i < j < r.len() implies !before(
            #[trigger] r[j],
            #[trigger] r[i],
        ) by {
            if j == s.len() && i < s.len() - 1 {
                assert(!before(s[s.len() - 1], s[i]));
                assert(!before(x, s.last()));
            }
        }
    } else {
        let rest = s.drop_last();
        assert(is_sorted(rest, before)) by {
            assert forall|i: int, j: int| 0 <= i < j < rest.len() implies !before(
                #[trigger] rest[j],
                #[trigger] rest[i],
            ) by {
                assert(!before(s[j], s[i]));
            }
        }
        lemma_insert_keeps_sorted(rest, x, before);
        let inner = insert_sorted(rest, x, before);
        assert forall|i: int| 0 <= i < inner.len() implies !before(s.last(), #[trigger] inner[i]) by {
            assert(inner.to_multiset().contains(inner[i]));
            if inner[i] == x {
                if before(s.last(), x) {
                    assert(before(x, x));
                }
            } else {
                assert(rest.to_multiset().contains(inner[i]));
                assert(rest.contains(inner[i]));
                let k = choose|k: int| 0 <= k < rest.len() && rest[k] == inner[i];
                assert(!before(s[s.len() - 1], s[k]));
            }
        }
        assert(rest.push(s.last()) == s);
        assert(s.to_multiset() == rest.to_multiset().insert(s.last()));
        assert(r.to_multiset() == inner.to_multiset().insert(s.last()));
        assert(rest.to_multiset().insert(x).insert(s.last()) =~= rest.to_multiset().insert(
            s.last(),
        ).insert(x));
    }
}

/// A sorted row is sorted, and holds what the row held.
pub proof fn law_sorted<A>(s: Seq<A>, before: spec_fn(A, A) -> bool)
    requires
        is_order(before),
    ensures
        is_sorted(sorted_by(s, before), before),
        sorted_by(s, before).to_multiset() == s.to_multiset(),
        sorted_by(s, before).len() == s.len(),
    decreases s.len(),
{
    broadcast use vstd::seq_lib::group_to_multiset_ensures;

    if s.len() > 0 {
        law_sorted(s.drop_last(), before);
        lemma_insert_keeps_sorted(sorted_by(s.drop_last(), before), s.last(), before);
        assert(s.drop_last().push(s.last()) == s);
    } else {
        assert(s == Seq::<A>::empty());
    }
}

/// Coming neither before nor after `x`.
pub open spec fn is_tied<A>(x: A, before: spec_fn(A, A) -> bool) -> spec_fn(A) -> bool {
    |y: A| !before(x, y) && !before(y, x)
}

proof fn lemma_filter_push<A>(s: Seq<A>, y: A, keep: spec_fn(A) -> bool)
    ensures
        s.push(y).filter(keep) == (if keep(y) {
            s.filter(keep).push(y)
        } else {
            s.filter(keep)
        }),
{
    reveal(Seq::filter);
    assert(s.push(y).drop_last() == s);
}

proof fn lemma_insert_stable<A>(s: Seq<A>, y: A, before: spec_fn(A, A) -> bool, x: A)
    requires
        is_order(before),
    ensures
        insert_sorted(s, y, before).filter(is_tied(x, before)) == s.push(y).filter(
            is_tied(x, before),
        ),
    decreases s.len(),
{
    let keep = is_tied(x, before);
    if s.len() > 0 && before(y, s.last()) {
        let rest = s.drop_last();
        lemma_insert_stable(rest, y, before, x);
        lemma_filter_push(insert_sorted(rest, y, before), s.last(), keep);
        lemma_filter_push(rest, y, keep);
        lemma_filter_push(s, y, keep);
        lemma_filter_push(rest, s.last(), keep);
        assert(rest.push(s.last()) == s);
        if keep(y) && keep(s.last()) {
            assert(!before(y, x) && !before(x, s.last()));
            assert(false);
        }
    }
}

/// Sorting keeps the order of what comes neither before nor after the other.
pub proof fn law_sort_is_stable<A>(s: Seq<A>, before: spec_fn(A, A) -> bool, x: A)
    requires
        is_order(before),
    ensures
        sorted_by(s, before).filter(is_tied(x, before)) == s.filter(is_tied(x, before)),
    decreases s.len(),
{
    if s.len() > 0 {
        let rest = s.drop_last();
        law_sort_is_stable(rest, before, x);
        lemma_insert_stable(sorted_by(rest, before), s.last(), before, x);
        lemma_filter_push(sorted_by(rest, before), s.last(), is_tied(x, before));
        lemma_filter_push(rest, s.last(), is_tied(x, before));
        assert(rest.push(s.last()) == s);
    } else {
        assert(s == Seq::<A>::empty());
    }
}

} // verus!
