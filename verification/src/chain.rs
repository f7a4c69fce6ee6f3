//! Chains of references: what is reached by following a partial "next" function.

use vstd::prelude::*;

verus! {

/// Where `n` steps lead from `p`: `None` where the chain stops earlier.
pub open spec fn walk<T>(next: spec_fn(T) -> Option<T>, p: T, n: nat) -> Option<T>
    decreases n,
{
    if n == 0 {
        Some(p)
    } else {
        match walk(next, p, (n - 1) as nat) {
            Some(q) => next(q),
            None => None,
        }
    }
}

/// The chain from `p` stops after exactly `n` steps.
pub open spec fn stops_after<T>(next: spec_fn(T) -> Option<T>, p: T, n: nat) -> bool {
    match walk(next, p, n) {
        Some(q) => next(q) is None,
        None => false,
    }
}

/// Whether the chain from `p` stops at all.
pub open spec fn stops<T>(next: spec_fn(T) -> Option<T>, p: T) -> bool {
    exists|n: nat| stops_after(next, p, n)
}

/// The last element of the chain from `p`: `None` where the chain runs in a circle.
pub open spec fn chain_end<T>(next: spec_fn(T) -> Option<T>, p: T) -> Option<T> {
    if stops(next, p) {
        walk(next, p, choose|n: nat| stops_after(next, p, n))
    } else {
        None
    }
}

/// Past its end a chain leads nowhere.
pub proof fn walk_past_end<T>(next: spec_fn(T) -> Option<T>, p: T, n: nat, m: nat)
    requires
        stops_after(next, p, n),
        n < m,
    ensures
        walk(next, p, m) is None,
    decreases m,
{
    if m > n + 1 {
        walk_past_end(next, p, n, (m - 1) as nat);
    }
}

/// A chain has one end.
pub proof fn chain_end_is<T>(next: spec_fn(T) -> Option<T>, p: T, n: nat)
    requires
        stops_after(next, p, n),
    ensures
        stops(next, p),
        chain_end(next, p) == walk(next, p, n),
{
    let m = choose|m: nat| stops_after(next, p, m);
    if m < n {
        walk_past_end(next, p, m, n);
    } else if n < m {
        walk_past_end(next, p, n, m);
    }
}

proof fn lemma_repeats<T>(next: spec_fn(T) -> Option<T>, p: T, i: nat, j: nat, k: nat)
    requires
        walk(next, p, i) == walk(next, p, j),
    ensures
        walk(next, p, i + k) == walk(next, p, j + k),
    decreases k,
{
    if k > 0 {
        lemma_repeats(next, p, i, j, (k - 1) as nat);
    }
}

/// A chain that comes back to where it has been never stops.
pub proof fn circle_never_stops<T>(next: spec_fn(T) -> Option<T>, p: T, i: nat, j: nat)
    requires
        i < j,
        walk(next, p, i) == walk(next, p, j),
        walk(next, p, j) is Some,
    ensures
        !stops(next, p),
        chain_end(next, p) is None,
{
    assert forall|n: nat| !stops_after(next, p, n) by {
        if stops_after(next, p, n) {
            if n < j {
                walk_past_end(next, p, n, j);
            } else {
                lemma_repeats(next, p, i, j, (n - i) as nat);
                walk_past_end(next, p, n, (j + (n - i)) as nat);
            }
        }
    }
}

/// A chain that comes back to where it has been only ever leads to where it has been.
pub proof fn circle_covers<T>(next: spec_fn(T) -> Option<T>, p: T, i: nat, j: nat, n: nat) -> (m: nat)
    requires
        i < j,
        walk(next, p, i) == walk(next, p, j),
    ensures
        m < j,
        walk(next, p, n) == walk(next, p, m),
    decreases n,
{
    if n < j {
        n
    } else {
        lemma_repeats(next, p, i, j, (n - j) as nat);
        circle_covers(next, p, i, j, (n - j + i) as nat)
    }
}

/// The end of a chain is the end of the chain from any of its elements.
pub proof fn chain_end_of_rest<T>(next: spec_fn(T) -> Option<T>, p: T, q: T)
    requires
        next(p) == Some(q),
    ensures
        chain_end(next, p) == chain_end(next, q),
        stops(next, p) == stops(next, q),
{
    assert forall|n: nat| walk(next, p, (n + 1) as nat) == #[trigger] walk(next, q, n) by {
        walk_rest(next, p, q, n);
    }
    if stops(next, q) {
        let n = choose|n: nat| stops_after(next, q, n);
        walk_rest(next, p, q, n);
        assert(stops_after(next, p, (n + 1) as nat));
        chain_end_is(next, p, (n + 1) as nat);
        chain_end_is(next, q, n);
    } else if stops(next, p) {
        let n = choose|n: nat| stops_after(next, p, n);
        if n > 0 {
            walk_rest(next, p, q, (n - 1) as nat);
            assert(stops_after(next, q, (n - 1) as nat));
        }
    }
}

/// One step more from an element than from the next one.
pub proof fn walk_rest<T>(next: spec_fn(T) -> Option<T>, p: T, q: T, n: nat)
    requires
        next(p) == Some(q),
    ensures
        walk(next, p, (n + 1) as nat) == walk(next, q, n),
    decreases n,
{
    if n > 0 {
        walk_rest(next, p, q, (n - 1) as nat);
    } else {
        assert(walk(next, p, 0) == Some(p));
        assert(walk(next, q, 0) == Some(q));
    }
}

} // verus!
