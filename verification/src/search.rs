//! First-index search over sequences: the one lookup pattern the registry,
//! the live-request table, the delivery queue and the pending-response table
//! all share, with the lemma that characterises it.

use vstd::prelude::*;

verus! {

/// Index of the first element of `s` at or after `i` satisfying `p`.
pub open spec fn spec_find_from<T>(s: Seq<T>, p: spec_fn(T) -> bool, i: int) -> Option<int>
    decreases s.len() - i,
{
    if i < 0 || i >= s.len() {
        None
    } else if p(s[i]) {
        Some(i)
    } else {
        spec_find_from(s, p, i + 1)
    }
}

/// Index of the first element of `s` satisfying `p`.
pub open spec fn spec_find<T>(s: Seq<T>, p: spec_fn(T) -> bool) -> Option<int> {
    spec_find_from(s, p, 0)
}

/// What a search result says about the elements of `s`: a hit is the first
/// hit, and a miss means no element qualifies.
pub proof fn lemma_find_from<T>(s: Seq<T>, p: spec_fn(T) -> bool, i: int)
    requires
        0 <= i,
    ensures
        match spec_find_from(s, p, i) {
            Some(j) => i <= j < s.len() && p(s[j]) && (forall|k: int|
                i <= k < j ==> !p(#[trigger] s[k])),
            None => forall|k: int| i <= k < s.len() ==> !p(#[trigger] s[k]),
        },
    decreases s.len() - i,
{
    if i < s.len() && !p(s[i]) {
        lemma_find_from(s, p, i + 1);
    }
}

/// Two predicates that agree on every element of `s` find the same index.
pub proof fn lemma_find_from_ext<T>(s: Seq<T>, p: spec_fn(T) -> bool, q: spec_fn(T) -> bool, i: int)
    requires
        forall|k: int| 0 <= k < s.len() ==> (p(#[trigger] s[k]) <==> q(s[k])),
    ensures
        spec_find_from(s, p, i) == spec_find_from(s, q, i),
    decreases s.len() - i,
{
    if 0 <= i < s.len() && !p(s[i]) {
        lemma_find_from_ext(s, p, q, i + 1);
    }
}

/// Two predicates that agree on every element of `s` find the same index.
pub proof fn lemma_find_ext<T>(s: Seq<T>, p: spec_fn(T) -> bool, q: spec_fn(T) -> bool)
    requires
        forall|k: int| 0 <= k < s.len() ==> (p(#[trigger] s[k]) <==> q(s[k])),
    ensures
        spec_find(s, p) == spec_find(s, q),
{
    lemma_find_from_ext(s, p, q, 0);
}

/// A search misses when no element qualifies.
pub proof fn lemma_find_none<T>(s: Seq<T>, p: spec_fn(T) -> bool)
    requires
        forall|k: int| 0 <= k < s.len() ==> !p(#[trigger] s[k]),
    ensures
        spec_find(s, p) is None,
{
    lemma_find(s, p);
}

/// Specialisation of [`lemma_find_from`] to a whole-sequence search.
pub proof fn lemma_find<T>(s: Seq<T>, p: spec_fn(T) -> bool)
    ensures
        match spec_find(s, p) {
            Some(j) => 0 <= j < s.len() && p(s[j]) && (forall|k: int|
                0 <= k < j ==> !p(#[trigger] s[k])),
            None => forall|k: int| 0 <= k < s.len() ==> !p(#[trigger] s[k]),
        },
{
    lemma_find_from(s, p, 0);
}

} // verus!
