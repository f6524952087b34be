//! Searching sequences: the first and the last element that satisfies a test.
use vstd::prelude::*;

verus! {

/// The position of the first element of `s` that satisfies `p`, or the
/// length of `s` when none does.
pub open spec fn first_match<A>(s: Seq<A>, p: spec_fn(A) -> bool) -> int
    decreases s.len(),
{
    if s.len() == 0 {
        0
    } else if p(s[0]) {
        0
    } else {
        1 + first_match(s.drop_first(), p)
    }
}

/// The position of the last element of `s` that satisfies `p`, or the
/// length of `s` when none does.
pub open spec fn last_match<A>(s: Seq<A>, p: spec_fn(A) -> bool) -> int
    decreases s.len(),
{
    if s.len() == 0 {
        0
    } else if p(s.last()) {
        s.len() - 1
    } else if last_match(s.drop_last(), p) < s.len() - 1 {
        last_match(s.drop_last(), p)
    } else {
        s.len() as int
    }
}

/// The first match is the one position before which nothing matches.
pub proof fn lemma_first_match<A>(s: Seq<A>, p: spec_fn(A) -> bool, k: int)
    requires
        0 <= k <= s.len(),
        forall|j: int| 0 <= j < k ==> !p(#[trigger] s[j]),
        k < s.len() ==> p(s[k]),
    ensures
        first_match(s, p) == k,
    decreases k,
{
    if k > 0 {
        assert forall|j: int| 0 <= j < k - 1 implies !p(#[trigger] s.drop_first()[j]) by {
            assert(s.drop_first()[j] == s[j + 1]);
        }
        lemma_first_match(s.drop_first(), p, k - 1);
    }
}

/// The first match lies within the sequence or just past it, and when it
/// lies within, the element there matches.
pub proof fn lemma_first_match_bounds<A>(s: Seq<A>, p: spec_fn(A) -> bool)
    ensures
        0 <= first_match(s, p) <= s.len(),
        first_match(s, p) < s.len() ==> p(s[first_match(s, p)]),
    decreases s.len(),
{
    if s.len() > 0 && !p(s[0]) {
        lemma_first_match_bounds(s.drop_first(), p);
    }
}

/// Nothing before the first match matches.
pub proof fn lemma_first_match_before<A>(s: Seq<A>, p: spec_fn(A) -> bool)
    ensures
        forall|j: int| 0 <= j < first_match(s, p) && j < s.len() ==> !p(#[trigger] s[j]),
    decreases s.len(),
{
    if s.len() > 0 && !p(s[0]) {
        lemma_first_match_before(s.drop_first(), p);
        assert forall|j: int| 0 <= j < first_match(s, p) && j < s.len() implies !p(#[trigger] s[j]) by {
            if j > 0 {
                assert(s[j] == s.drop_first()[j - 1]);
            }
        }
    }
}

/// The first match comes no later than any element that matches.
pub proof fn lemma_first_match_le<A>(s: Seq<A>, p: spec_fn(A) -> bool, j: int)
    requires
        0 <= j < s.len(),
        p(s[j]),
    ensures
        first_match(s, p) <= j,
    decreases s.len(),
{
    if !p(s[0]) {
        assert(s.drop_first()[j - 1] == s[j]);
        lemma_first_match_le(s.drop_first(), p, j - 1);
    }
}

/// The last match is the one position after which nothing matches.
pub proof fn lemma_last_match<A>(s: Seq<A>, p: spec_fn(A) -> bool, k: int)
    requires
        0 <= k <= s.len(),
        k < s.len() ==> p(s[k]) && forall|j: int| k < j < s.len() ==> !p(#[trigger] s[j]),
        k == s.len() ==> forall|j: int| 0 <= j < s.len() ==> !p(#[trigger] s[j]),
    ensures
        last_match(s, p) == k,
    decreases s.len(),
{
    if s.len() > 0 {
        if k == s.len() - 1 {
        } else {
            assert(!p(s.last()));
            let t = s.drop_last();
            if k == s.len() {
                assert forall|j: int| 0 <= j < t.len() implies !p(#[trigger] t[j]) by {
                    assert(t[j] == s[j]);
                }
                lemma_last_match(t, p, t.len() as int);
            } else {
                assert forall|j: int| k < j < t.len() implies !p(#[trigger] t[j]) by {
                    assert(t[j] == s[j]);
                }
                lemma_last_match(t, p, k);
            }
        }
    }
}

} // verus!
