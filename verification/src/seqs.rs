use vstd::prelude::*;

verus! {

/// The first index at or after `i` whose element satisfies `p`.
pub open spec fn first_index_from<A>(s: Seq<A>, p: spec_fn(A) -> bool, i: int) -> Option<int>
    decreases s.len() - i,
{
    if i < 0 || i >= s.len() {
        None
    } else if p(s[i]) {
        Some(i)
    } else {
        first_index_from(s, p, i + 1)
    }
}

/// The first index of `s` whose element satisfies `p`.
pub open spec fn first_index<A>(s: Seq<A>, p: spec_fn(A) -> bool) -> Option<int> {
    first_index_from(s, p, 0)
}

/// What `first_index_from` gives: the least qualifying index at or after `i`, or none.
pub proof fn lemma_first_index_from<A>(s: Seq<A>, p: spec_fn(A) -> bool, i: int)
    requires
        0 <= i,
    ensures
        first_index_from(s, p, i) matches Some(k) ==> {
            &&& i <= k < s.len()
            &&& p(s[k])
            &&& forall|j: int| i <= j < k ==> !p(#[trigger] s[j])
        },
        first_index_from(s, p, i) is None ==> forall|j: int| i <= j < s.len() ==> !p(#[trigger] s[j]),
    decreases s.len() - i,
{
    if i < s.len() && !p(s[i]) {
        lemma_first_index_from(s, p, i + 1);
    }
}

/// What `first_index` gives: the least qualifying index, or none.
pub proof fn lemma_first_index<A>(s: Seq<A>, p: spec_fn(A) -> bool)
    ensures
        first_index(s, p) matches Some(k) ==> {
            &&& 0 <= k < s.len()
            &&& p(s[k])
            &&& forall|j: int| 0 <= j < k ==> !p(#[trigger] s[j])
        },
        first_index(s, p) is None ==> forall|j: int| 0 <= j < s.len() ==> !p(#[trigger] s[j]),
{
    lemma_first_index_from(s, p, 0);
}

/// A scan that found no qualifying element before `k`, and stops at `k`, found the first one.
pub proof fn lemma_first_index_at<A>(s: Seq<A>, p: spec_fn(A) -> bool, k: int)
    requires
        0 <= k <= s.len(),
        forall|j: int| 0 <= j < k ==> !p(#[trigger] s[j]),
        k == s.len() || p(s[k]),
    ensures
        first_index(s, p) == (if k == s.len() {
            None::<int>
        } else {
            Some(k)
        }),
{
    lemma_first_index(s, p);
    match first_index(s, p) {
        Some(m) => {
            if m < k {
                assert(!p(s[m]));
            }
            if k < m {
                assert(!p(s[k]));
            }
        },
        None => {
            if k < s.len() {
                assert(!p(s[k]));
            }
        },
    }
}

} // verus!
