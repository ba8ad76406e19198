//! Facts about searching sequences.

use vstd::prelude::*;

verus! {

/// The first index of `s` whose element satisfies `pred`.
pub open spec fn first_where<A>(s: Seq<A>, pred: spec_fn(A) -> bool) -> Option<int>
    decreases s.len(),
{
    if s.len() == 0 {
        None
    } else if pred(s[0]) {
        Some(0)
    } else {
        match first_where(s.drop_first(), pred) {
            Some(k) => Some(k + 1),
            None => None,
        }
    }
}

/// An index that satisfies `pred`, with none before it, is the first one.
pub proof fn lemma_first_where_found<A>(s: Seq<A>, pred: spec_fn(A) -> bool, k: int)
    requires
        0 <= k < s.len(),
        pred(s[k]),
        forall|j: int| 0 <= j < k ==> !pred(#[trigger] s[j]),
    ensures
        first_where(s, pred) == Some(k),
    decreases k,
{
    if k > 0 {
        assert(!pred(s[0]));
        assert forall|j: int| 0 <= j < k - 1 implies !pred(#[trigger] s.drop_first()[j]) by {
            assert(s.drop_first()[j] == s[j + 1]);
        }
        lemma_first_where_found(s.drop_first(), pred, k - 1);
    }
}

/// Without an element that satisfies `pred` there is no first one.
pub proof fn lemma_first_where_none<A>(s: Seq<A>, pred: spec_fn(A) -> bool)
    requires
        forall|j: int| 0 <= j < s.len() ==> !pred(#[trigger] s[j]),
    ensures
        first_where(s, pred) is None,
    decreases s.len(),
{
    if s.len() > 0 {
        assert(!pred(s[0]));
        assert forall|j: int| 0 <= j < s.len() - 1 implies !pred(#[trigger] s.drop_first()[j]) by {
            assert(s.drop_first()[j] == s[j + 1]);
        }
        lemma_first_where_none(s.drop_first(), pred);
    }
}

/// Two searches that agree at every position find the same first index.
pub proof fn lemma_first_where_agree<A, B>(
    a: Seq<A>,
    p: spec_fn(A) -> bool,
    b: Seq<B>,
    q: spec_fn(B) -> bool,
)
    requires
        a.len() == b.len(),
        forall|i: int| 0 <= i < a.len() ==> p(#[trigger] a[i]) == q(b[i]),
    ensures
        first_where(a, p) == first_where(b, q),
    decreases a.len(),
{
    if a.len() > 0 {
        assert(p(a[0]) == q(b[0]));
        assert forall|i: int| 0 <= i < a.len() - 1 implies p(#[trigger] a.drop_first()[i]) == q(
            b.drop_first()[i],
        ) by {
            assert(p(a[i + 1]) == q(b[i + 1]));
        }
        lemma_first_where_agree(a.drop_first(), p, b.drop_first(), q);
    }
}

/// What `first_where` gives: a satisfying index with none before it, or no satisfying index.
pub proof fn lemma_first_where<A>(s: Seq<A>, pred: spec_fn(A) -> bool)
    ensures
        match first_where(s, pred) {
            Some(k) => 0 <= k < s.len() && pred(s[k]) && forall|j: int|
                0 <= j < k ==> !pred(#[trigger] s[j]),
            None => forall|j: int| 0 <= j < s.len() ==> !pred(#[trigger] s[j]),
        },
    decreases s.len(),
{
    if s.len() > 0 {
        lemma_first_where(s.drop_first(), pred);
        if !pred(s[0]) {
            match first_where(s.drop_first(), pred) {
                Some(k) => {
                    assert(s.drop_first()[k] == s[k + 1]);
                    assert forall|j: int| 0 <= j < k + 1 implies !pred(#[trigger] s[j]) by {
                        if j > 0 {
                            assert(s.drop_first()[j - 1] == s[j]);
                        }
                    }
                },
                None => {
                    assert forall|j: int| 0 <= j < s.len() implies !pred(#[trigger] s[j]) by {
                        if j > 0 {
                            assert(s.drop_first()[j - 1] == s[j]);
                        }
                    }
                },
            }
        }
    }
}

} // verus!
