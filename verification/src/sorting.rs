//! Stable sorting.

use vstd::prelude::*;
use crate::textmap::{self, Duplicate};

verus! {

/// An ordered list with one more element, behind all that it does not come before.
pub open spec fn placed<T>(s: Seq<T>, x: T, before: spec_fn(T, T) -> bool) -> Seq<T>
    decreases s.len(),
{
    if s.len() == 0 || !before(x, s.last()) {
        s.push(x)
    } else {
        placed(s.drop_last(), x, before).push(s.last())
    }
}

/// A list in order. What comes neither before nor behind another keeps its place beside it.
pub open spec fn in_order<T>(s: Seq<T>, before: spec_fn(T, T) -> bool) -> Seq<T>
    decreases s.len(),
{
    if s.len() == 0 {
        Seq::empty()
    } else {
        placed(in_order(s.drop_last(), before), s.last(), before)
    }
}

/// No element comes before one that stands in front of it.
pub open spec fn is_ordered<T>(s: Seq<T>, before: spec_fn(T, T) -> bool) -> bool {
    forall|i: int, j: int| 0 <= i < j < s.len() ==> !before(#[trigger] s[j], #[trigger] s[i])
}

/// Nothing comes before itself, and what comes behind a third element comes behind what that one
/// comes behind.
pub open spec fn orders<T>(before: spec_fn(T, T) -> bool) -> bool {
    &&& forall|a: T, b: T| #[trigger] before(a, b) ==> !before(b, a)
    &&& forall|a: T, b: T, c: T|
        #![trigger before(a, b), before(b, c)]
        !before(a, b) && !before(b, c) ==> !before(a, c)
}

proof fn lemma_placed_members<T>(s: Seq<T>, x: T, before: spec_fn(T, T) -> bool)
    ensures
        placed(s, x, before).to_multiset() == s.to_multiset().insert(x),
        placed(s, x, before).len() == s.len() + 1,
    decreases s.len(),
{
    broadcast use vstd::seq_lib::group_to_multiset_ensures;

    if s.len() > 0 && before(x, s.last()) {
        lemma_placed_members(s.drop_last(), x, before);
        assert(s =~= s.drop_last().push(s.last()));
    }
}

/// Sorting keeps the members.
pub proof fn in_order_members<T>(s: Seq<T>, before: spec_fn(T, T) -> bool)
    ensures
        in_order(s, before).to_multiset() == s.to_multiset(),
        in_order(s, before).len() == s.len(),
    decreases s.len(),
{
    broadcast use vstd::seq_lib::group_to_multiset_ensures;

    if s.len() > 0 {
        in_order_members(s.drop_last(), before);
        lemma_placed_members(in_order(s.drop_last(), before), s.last(), before);
        assert(s =~= s.drop_last().push(s.last()));
    }
}

proof fn lemma_placed_source<T>(s: Seq<T>, x: T, before: spec_fn(T, T) -> bool, i: int)
    requires
        0 <= i < placed(s, x, before).len(),
    ensures
        placed(s, x, before)[i] == x || s.contains(placed(s, x, before)[i]),
    decreases s.len(),
{
    if s.len() == 0 || !before(x, s.last()) {
        if i < s.len() {
            assert(s[i] == placed(s, x, before)[i]);
        }
    } else {
        let front = placed(s.drop_last(), x, before);
        if i < front.len() {
            lemma_placed_source(s.drop_last(), x, before, i);
            if s.drop_last().contains(front[i]) {
                let k = choose|k: int| 0 <= k < s.drop_last().len() && s.drop_last()[k] == front[i];
                assert(s[k] == front[i]);
            }
        } else {
            assert(s[s.len() - 1] == s.last());
        }
    }
}

proof fn lemma_placed_ordered<T>(s: Seq<T>, x: T, before: spec_fn(T, T) -> bool)
    requires
        orders(before),
        is_ordered(s, before),
    ensures
        is_ordered(placed(s, x, before), before),
    decreases s.len(),
{
    let r = placed(s, x, before);
    if s.len() == 0 || !before(x, s.last()) {
        assert forall|i: int, j: int| 0 <= i < j < r.len() implies !before(#[trigger] r[j], #[trigger] r[i]) by {
            if j == s.len() {
                if i < s.len() - 1 {
                    assert(!before(s[s.len() - 1], s[i]));
                    assert(!before(x, s.last()));
                }
            } else {
                assert(!before(s[j], s[i]));
            }
        }
    } else {
        let t = s.drop_last();
        assert(is_ordered(t, before)) by {
            assert forall|i: int, j: int| 0 <= i < j < t.len() implies !before(
                #[trigger] t[j],
                #[trigger] t[i],
            ) by {
                assert(!before(s[j], s[i]));
            }
        }
        lemma_placed_ordered(t, x, before);
        let front = placed(t, x, before);
        assert forall|i: int, j: int| 0 <= i < j < r.len() implies !before(#[trigger] r[j], #[trigger] r[i]) by {
            if j == front.len() {
                lemma_placed_source(t, x, before, i);
                if front[i] == x {
                    assert(before(x, s.last()));
                } else {
                    let k = choose|k: int| 0 <= k < t.len() && t[k] == front[i];
                    assert(!before(s[s.len() - 1], s[k]));
                }
            } else {
                assert(!before(front[j], front[i]));
            }
        }
    }
}

/// Sorting puts in order.
pub proof fn in_order_is_ordered<T>(s: Seq<T>, before: spec_fn(T, T) -> bool)
    requires
        orders(before),
    ensures
        is_ordered(in_order(s, before), before),
    decreases s.len(),
{
    if s.len() > 0 {
        in_order_is_ordered(s.drop_last(), before);
        lemma_placed_ordered(in_order(s.drop_last(), before), s.last(), before);
    }
}

proof fn lemma_placed_at<T>(s: Seq<T>, x: T, before: spec_fn(T, T) -> bool, at: int)
    requires
        0 <= at <= s.len(),
        at > 0 ==> !before(x, s[at - 1]),
        forall|i: int| at <= i < s.len() ==> before(x, #[trigger] s[i]),
    ensures
        placed(s, x, before) == s.insert(at, x),
    decreases s.len(),
{
    if at == s.len() {
        assert(s.insert(at, x) =~= s.push(x));
    } else {
        assert(before(x, s[s.len() - 1]));
        lemma_placed_at(s.drop_last(), x, before, at);
        assert(s.insert(at, x) =~= s.drop_last().insert(at, x).push(s.last()));
    }
}

/// Sorts a list.
pub fn sort_all<T: Duplicate, F: Fn(&T, &T) -> bool>(
    v: &Vec<T>,
    f: F,
    Ghost(before): Ghost<spec_fn(T::V, T::V) -> bool>,
) -> (r: Vec<T>)
    requires
        forall|a: &T, b: &T| f.requires((a, b)),
        forall|a: &T, b: &T, c: bool| #[trigger] f.ensures((a, b), c) ==> c == before(a@, b@),
    ensures
        textmap::views(r@) == in_order(textmap::views(v@), before),
{
    let mut out: Vec<T> = Vec::new();
    let ghost all = textmap::views(v@);
    assert(textmap::views(out@) =~= Seq::<T::V>::empty());
    for i in 0..v.len()
        invariant
            all == textmap::views(v@),
            forall|a: &T, b: &T| f.requires((a, b)),
            forall|a: &T, b: &T, c: bool| #[trigger] f.ensures((a, b), c) ==> c == before(a@, b@),
            textmap::views(out@) == in_order(all.take(i as int), before),
    {
        proof {
            assert(all.take(i + 1).drop_last() =~= all.take(i as int));
            assert(all.take(i + 1).last() == all[i as int]);
        }
        let ghost done = textmap::views(out@);
        let mut at: usize = out.len();
        while at > 0 && f(&v[i], &out[at - 1])
            invariant
                at <= out@.len(),
                i < v@.len(),
                done == textmap::views(out@),
                all == textmap::views(v@),
                forall|a: &T, b: &T| f.requires((a, b)),
                forall|a: &T, b: &T, c: bool| #[trigger] f.ensures((a, b), c) ==> c == before(a@, b@),
                forall|k: int| at <= k < done.len() ==> before(all[i as int], #[trigger] done[k]),
            decreases at,
        {
            at = at - 1;
        }
        proof {
            if at > 0 {
                assert(done[at - 1] == out@[at - 1]@);
            }
            lemma_placed_at(done, all[i as int], before, at as int);
        }
        out.insert(at, v[i].duplicate());
        assert(textmap::views(out@) =~= done.insert(at as int, all[i as int]));
    }
    assert(all.take(v@.len() as int) =~= all);
    out
}

} // verus!
