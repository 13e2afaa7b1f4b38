//! Searching a sequence for its first element of a kind.
use vstd::prelude::*;

verus! {

/// Index of the first element that satisfies `p`, or the length where none
/// does.
pub open spec fn first_index<T>(s: Seq<T>, p: spec_fn(T) -> bool) -> int
    decreases s.len(),
{
    if s.len() == 0 || p(s[0]) {
        0
    } else {
        1 + first_index(s.drop_first(), p)
    }
}

/// `first_index` is the least index whose element satisfies `p`.
pub proof fn lemma_first_index<T>(s: Seq<T>, p: spec_fn(T) -> bool)
    ensures
        0 <= first_index(s, p) <= s.len(),
        forall|i: int| 0 <= i < first_index(s, p) ==> !p(#[trigger] s[i]),
        first_index(s, p) < s.len() ==> p(s[first_index(s, p)]),
    decreases s.len(),
{
    if s.len() == 0 || p(s[0]) {
    } else {
        let rest = s.drop_first();
        lemma_first_index(rest, p);
        assert forall|i: int| 0 <= i < first_index(s, p) implies !p(#[trigger] s[i]) by {
            if i > 0 {
                assert(s[i] == rest[i - 1]);
            }
        }
        if first_index(s, p) < s.len() {
            assert(s[first_index(s, p)] == rest[first_index(rest, p)]);
        }
    }
}

/// An index below which no element satisfies `p`, and which ends the
/// sequence or holds an element that does, is `first_index`.
pub proof fn lemma_first_index_is<T>(s: Seq<T>, p: spec_fn(T) -> bool, n: int)
    requires
        0 <= n <= s.len(),
        forall|i: int| 0 <= i < n ==> !p(#[trigger] s[i]),
        n < s.len() ==> p(s[n]),
    ensures
        first_index(s, p) == n,
{
    lemma_first_index(s, p);
    let m = first_index(s, p);
    if m < n {
        assert(!p(s[m]));
    } else if n < m {
        assert(!p(s[n]));
    }
}

/// Where exactly one element satisfies `p`, `first_index` is its index.
pub proof fn lemma_first_index_only<T>(s: Seq<T>, p: spec_fn(T) -> bool, n: int)
    requires
        0 <= n < s.len(),
        p(s[n]),
        forall|i: int| 0 <= i < s.len() && i != n ==> !p(#[trigger] s[i]),
    ensures
        first_index(s, p) == n,
{
    lemma_first_index_is(s, p, n);
}

/// Where no element satisfies `p`, `first_index` is the length.
pub proof fn lemma_first_index_none<T>(s: Seq<T>, p: spec_fn(T) -> bool)
    requires
        forall|i: int| 0 <= i < s.len() ==> !p(#[trigger] s[i]),
    ensures
        first_index(s, p) == s.len(),
{
    lemma_first_index_is(s, p, s.len() as int);
}

} // verus!
