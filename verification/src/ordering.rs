use vstd::prelude::*;

verus! {

// Stable sorting by a "comes strictly before" relation, as `slice::sort_by` does: equal
// items keep their order.

/// `x` inserted into `s` after every item it does not come strictly before.
pub open spec fn stable_insert<T>(s: Seq<T>, x: T, before: spec_fn(T, T) -> bool) -> Seq<T>
    decreases s.len(),
{
    if s.len() == 0 || !before(x, s.last()) {
        s.push(x)
    } else {
        stable_insert(s.drop_last(), x, before).push(s.last())
    }
}

/// `s` sorted stably: each item inserted in turn.
pub open spec fn stable_sort<T>(s: Seq<T>, before: spec_fn(T, T) -> bool) -> Seq<T>
    decreases s.len(),
{
    if s.len() == 0 {
        s
    } else {
        stable_insert(stable_sort(s.drop_last(), before), s.last(), before)
    }
}

/// No item comes strictly before an item listed ahead of it.
pub open spec fn ordered_by<T>(s: Seq<T>, before: spec_fn(T, T) -> bool) -> bool {
    forall|i: int, j: int| 0 <= i < j < s.len() ==> !before(#[trigger] s[j], #[trigger] s[i])
}

/// `before` is a strict weak order: asymmetric, with "not before" transitive.
pub open spec fn strict_weak<T>(before: spec_fn(T, T) -> bool) -> bool {
    &&& forall|a: T, b: T| #[trigger] before(a, b) ==> !before(b, a)
    &&& forall|a: T, b: T, c: T|
        #![trigger before(b, a), before(c, b)]
        !before(b, a) && !before(c, b) ==> !before(c, a)
}

/// Inserting past a tail of items that `x` comes before leaves that tail behind it.
pub proof fn lemma_insert_before_tail<T>(s: Seq<T>, x: T, before: spec_fn(T, T) -> bool, j: int)
    requires
        0 <= j <= s.len(),
        forall|m: int| j <= m < s.len() ==> before(x, #[trigger] s[m]),
    ensures
        stable_insert(s, x, before) == stable_insert(s.take(j), x, before) + s.skip(j),
    decreases s.len() - j,
{
    if j == s.len() {
        assert(s.take(j) =~= s);
        assert(s.skip(j) =~= Seq::<T>::empty());
        assert(stable_insert(s, x, before) + Seq::<T>::empty() =~= stable_insert(s, x, before));
    } else {
        let p = s.drop_last();
        assert(before(x, s[s.len() - 1]));
        assert forall|m: int| j <= m < p.len() implies before(x, #[trigger] p[m]) by {
            assert(p[m] == s[m]);
        }
        lemma_insert_before_tail(p, x, before, j);
        assert(p.take(j) =~= s.take(j));
        assert(s.skip(j) =~= p.skip(j).push(s.last()));
        assert(stable_insert(s, x, before) == stable_insert(p, x, before).push(s.last()));
        assert((stable_insert(p.take(j), x, before) + p.skip(j)).push(s.last()) =~= stable_insert(
            p.take(j),
            x,
            before,
        ) + p.skip(j).push(s.last()));
    }
}

/// Inserting keeps every item and adds `x`.
pub proof fn lemma_insert_multiset<T>(s: Seq<T>, x: T, before: spec_fn(T, T) -> bool)
    ensures
        stable_insert(s, x, before).to_multiset() == s.to_multiset().insert(x),
        stable_insert(s, x, before).len() == s.len() + 1,
    decreases s.len(),
{
    broadcast use vstd::seq_lib::group_to_multiset_ensures;

    if s.len() == 0 || !before(x, s.last()) {
    } else {
        let p = s.drop_last();
        lemma_insert_multiset(p, x, before);
        assert(s =~= p.push(s.last()));
        assert(s.to_multiset() == p.to_multiset().insert(s.last()));
        assert(stable_insert(p, x, before).push(s.last()).to_multiset() == stable_insert(p, x, before).to_multiset().insert(s.last()));
        assert(p.to_multiset().insert(x).insert(s.last()) =~= p.to_multiset().insert(s.last()).insert(x));
    }
}

/// Inserting into an ordered list keeps it ordered.
pub proof fn lemma_insert_ordered<T>(s: Seq<T>, x: T, before: spec_fn(T, T) -> bool)
    requires
        strict_weak(before),
        ordered_by(s, before),
    ensures
        ordered_by(stable_insert(s, x, before), before),
        forall|k: int| 0 <= k < stable_insert(s, x, before).len() ==> #[trigger] stable_insert(s, x, before)[k] == x
            || s.contains(stable_insert(s, x, before)[k]),
    decreases s.len(),
{
    if s.len() == 0 || !before(x, s.last()) {
        let r = s.push(x);
        assert forall|i: int, j: int| 0 <= i < j < r.len() implies !before(#[trigger] r[j], #[trigger] r[i]) by {
            if j == s.len() {
                if s.len() > 0 {
                    let l = s.last();
                    assert(!before(x, l));
                    if i < s.len() - 1 {
                        assert(!before(l, s[i]));
                        assert(!before(x, s[i]));
                    }
                }
            }
        }
        assert forall|k: int| 0 <= k < r.len() implies #[trigger] r[k] == x || s.contains(r[k]) by {
            if k < s.len() {
                assert(s[k] == r[k]);
            }
        }
    } else {
        let p = s.drop_last();
        let l = s.last();
        assert(ordered_by(p, before)) by {
            assert forall|i: int, j: int| 0 <= i < j < p.len() implies !before(#[trigger] p[j], #[trigger] p[i]) by {
                assert(p[i] == s[i] && p[j] == s[j]);
            }
        }
        lemma_insert_ordered(p, x, before);
        let q = stable_insert(p, x, before);
        let r = q.push(l);
        assert(before(x, l));
        assert forall|i: int, j: int| 0 <= i < j < r.len() implies !before(#[trigger] r[j], #[trigger] r[i]) by {
            if j == q.len() {
                let e = q[i];
                assert(q[i] == x || p.contains(q[i]));
                if q[i] == x {
                    assert(!before(l, x));
                } else {
                    let m = choose|m: int| 0 <= m < p.len() && p[m] == e;
                    assert(p[m] == s[m]);
                    assert(!before(l, s[m]));
                }
            } else {
                assert(r[i] == q[i] && r[j] == q[j]);
            }
        }
        assert forall|k: int| 0 <= k < r.len() implies #[trigger] r[k] == x || s.contains(r[k]) by {
            if k < q.len() {
                assert(r[k] == q[k]);
                if q[k] != x {
                    let m = choose|m: int| 0 <= m < p.len() && p[m] == q[k];
                    assert(s[m] == p[m]);
                }
            } else {
                assert(s[s.len() - 1] == l);
            }
        }
    }
}

/// A stable sort orders the items and keeps every one of them.
pub proof fn lemma_stable_sort<T>(s: Seq<T>, before: spec_fn(T, T) -> bool)
    requires
        strict_weak(before),
    ensures
        ordered_by(stable_sort(s, before), before),
        stable_sort(s, before).to_multiset() == s.to_multiset(),
        stable_sort(s, before).len() == s.len(),
    decreases s.len(),
{
    broadcast use vstd::seq_lib::group_to_multiset_ensures;

    if s.len() > 0 {
        let p = s.drop_last();
        lemma_stable_sort(p, before);
        lemma_insert_ordered(stable_sort(p, before), s.last(), before);
        lemma_insert_multiset(stable_sort(p, before), s.last(), before);
        assert(s =~= p.push(s.last()));
    }
}

/// One step of an insertion sort: the sorted prefix `s.take(i)` grows by `s[i]`.
pub proof fn lemma_stable_sort_step<T>(s: Seq<T>, i: int, before: spec_fn(T, T) -> bool)
    requires
        0 <= i < s.len(),
    ensures
        stable_sort(s.take(i + 1), before) == stable_insert(stable_sort(s.take(i), before), s[i], before),
{
    assert(s.take(i + 1).drop_last() =~= s.take(i));
}

} // verus!
