//! First-match search over sequences, specified without recursion: the index
//! of the first element satisfying a predicate, or -1.

use vstd::prelude::*;

verus! {

/// There is an element satisfying `p` whose predecessors all fail it.
pub open spec fn has_first<T>(s: Seq<T>, p: spec_fn(T) -> bool) -> bool {
    exists|i: int|
        0 <= i < s.len() && p(s[i]) && (forall|k: int| 0 <= k < i ==> !p(#[trigger] s[k]))
}

/// Index of the first element satisfying `p`, or -1 when none does.
pub open spec fn first_where<T>(s: Seq<T>, p: spec_fn(T) -> bool) -> int {
    if has_first(s, p) {
        choose|i: int|
            0 <= i < s.len() && p(s[i]) && (forall|k: int| 0 <= k < i ==> !p(#[trigger] s[k]))
    } else {
        -1
    }
}

/// What `first_where` returns: a first match when one exists, -1 otherwise.
pub proof fn lemma_first_where<T>(s: Seq<T>, p: spec_fn(T) -> bool)
    ensures
        first_where(s, p) == -1 ==> forall|k: int| 0 <= k < s.len() ==> !p(#[trigger] s[k]),
        first_where(s, p) >= 0 ==> {
            let i = first_where(s, p);
            &&& i < s.len()
            &&& p(s[i])
            &&& forall|k: int| 0 <= k < i ==> !p(#[trigger] s[k])
        },
{
    if first_where(s, p) == -1 {
        assert forall|k: int| 0 <= k < s.len() implies !p(#[trigger] s[k]) by {
            if p(s[k]) {
                // Take the least index satisfying p: scan from the left.
                lemma_least_witness(s, p, k);
            }
        }
    }
}

/// If some index satisfies `p`, a first match exists (shown by descending to
/// the least such index).
proof fn lemma_least_witness<T>(s: Seq<T>, p: spec_fn(T) -> bool, w: int)
    requires
        0 <= w < s.len(),
        p(s[w]),
    ensures
        has_first(s, p),
    decreases w,
{
    if forall|k: int| 0 <= k < w ==> !p(#[trigger] s[k]) {
        assert(has_first(s, p));
    } else {
        let w2 = choose|k: int| 0 <= k < w && p(#[trigger] s[k]);
        lemma_least_witness(s, p, w2);
    }
}

/// A verified first match pins `first_where` down.
pub proof fn lemma_first_where_is<T>(s: Seq<T>, p: spec_fn(T) -> bool, i: int)
    requires
        0 <= i < s.len(),
        p(s[i]),
        forall|k: int| 0 <= k < i ==> !p(#[trigger] s[k]),
    ensures
        first_where(s, p) == i,
{
    assert(has_first(s, p));
    let j = first_where(s, p);
    if j < i {
        assert(!p(s[j]));
    } else if j > i {
        assert(!p(s[i]));
    }
}

/// When no element satisfies `p`, `first_where` is -1.
pub proof fn lemma_first_where_none<T>(s: Seq<T>, p: spec_fn(T) -> bool)
    requires
        forall|k: int| 0 <= k < s.len() ==> !p(#[trigger] s[k]),
    ensures
        first_where(s, p) == -1,
{
    if has_first(s, p) {
        let i = choose|i: int|
            0 <= i < s.len() && p(s[i]) && (forall|k: int| 0 <= k < i ==> !p(#[trigger] s[k]));
        assert(!p(s[i]));
    }
}

} // verus!
