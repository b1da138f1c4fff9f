//! Small facts about sequence filtering that the mutation proofs share.
use vstd::prelude::*;

verus! {

/// Filtering distributes over `push`.
pub proof fn lemma_filter_push<A>(s: Seq<A>, x: A, pred: spec_fn(A) -> bool)
    ensures
        s.push(x).filter(pred) == (if pred(x) {
            s.filter(pred).push(x)
        } else {
            s.filter(pred)
        }),
{
    reveal(Seq::filter);
    assert(s.push(x).drop_last() =~= s);
    assert(s.push(x).last() == x);
}

/// Filtering a sequence of pairwise-distinct elements yields a sequence of
/// pairwise-distinct elements.
pub proof fn lemma_filter_distinct<A>(s: Seq<A>, pred: spec_fn(A) -> bool)
    requires
        forall|i: int, j: int| 0 <= i < j < s.len() ==> s[i] != s[j],
    ensures
        forall|i: int, j: int|
            0 <= i < j < s.filter(pred).len() ==> s.filter(pred)[i] != s.filter(pred)[j],
    decreases s.len(),
{
    reveal(Seq::filter);
    if s.len() > 0 {
        let dl = s.drop_last();
        assert forall|i: int, j: int| 0 <= i < j < dl.len() implies dl[i] != dl[j] by {
            assert(s[i] != s[j]);
        }
        lemma_filter_distinct(dl, pred);
        let f = s.filter(pred);
        let fdl = dl.filter(pred);
        if pred(s.last()) {
            assert(f == fdl.push(s.last()));
            assert forall|i: int| 0 <= i < fdl.len() implies fdl[i] != s.last() by {
                assert(fdl.contains(fdl[i]));
                dl.lemma_filter_contains_rev(pred, fdl[i]);
                let k = choose|k: int| 0 <= k < dl.len() && dl[k] == fdl[i];
                assert(s[k] == dl[k]);
                assert(s[k] != s[s.len() - 1]);
            }
            assert forall|i: int, j: int| 0 <= i < j < f.len() implies f[i] != f[j] by {
                if j < f.len() - 1 {
                    assert(f[i] == fdl[i] && f[j] == fdl[j]);
                } else {
                    assert(f[j] == s.last());
                    assert(f[i] == fdl[i]);
                }
            }
        }
    }
}

/// The predicate that keeps every id but `x`; filtering with it removes
/// exactly the occurrences of `x`.
pub open spec fn without_id(x: u64) -> spec_fn(u64) -> bool {
    |u: u64| u != x
}

/// Filtering keeps a sequence whose elements all satisfy the predicate.
pub proof fn lemma_filter_all<A>(s: Seq<A>, pred: spec_fn(A) -> bool)
    requires
        forall|i: int| 0 <= i < s.len() ==> pred(#[trigger] s[i]),
    ensures
        s.filter(pred) == s,
    decreases s.len(),
{
    reveal(Seq::filter);
    if s.len() > 0 {
        let dl = s.drop_last();
        assert forall|i: int| 0 <= i < dl.len() implies pred(#[trigger] dl[i]) by {
            assert(dl[i] == s[i]);
        }
        lemma_filter_all(dl, pred);
        assert(pred(s.last()));
        assert(dl.push(s.last()) =~= s);
    }
}

/// Nothing in a filtered sequence fails the predicate.
pub proof fn lemma_filter_holds<A>(s: Seq<A>, pred: spec_fn(A) -> bool)
    ensures
        forall|i: int| 0 <= i < s.filter(pred).len() ==> pred(#[trigger] s.filter(pred)[i]),
{
    s.filter_lemma(pred);
}

/// Every element of a filtered sequence occurs in the source.
pub proof fn lemma_filter_sub<A>(s: Seq<A>, pred: spec_fn(A) -> bool)
    ensures
        forall|i: int|
            0 <= i < s.filter(pred).len() ==> s.contains(#[trigger] s.filter(pred)[i]),
{
    assert forall|i: int| 0 <= i < s.filter(pred).len() implies s.contains(
        #[trigger] s.filter(pred)[i],
    ) by {
        assert(s.filter(pred).contains(s.filter(pred)[i]));
        s.lemma_filter_contains_rev(pred, s.filter(pred)[i]);
    }
}

/// A sequence in which no element matches `x` does not contain `x`, stated
/// for filtering `x` out: the filtered sequence never contains `x`.
pub proof fn lemma_filter_out_not_contains(s: Seq<u64>, x: u64)
    ensures
        !s.filter(|u: u64| u != x).contains(x),
{
    let f = s.filter(|u: u64| u != x);
    if f.contains(x) {
        let i = choose|i: int| 0 <= i < f.len() && f[i] == x;
        s.filter_lemma(|u: u64| u != x);
        assert((|u: u64| u != x)(f[i]));
    }
}

} // verus!
