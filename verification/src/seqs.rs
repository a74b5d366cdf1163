//! Facts about filtered sequences that the tree queries rely on.
use vstd::prelude::*;

verus! {

/// The first element of a sequence, if there is one.
pub open spec fn first_of<A>(s: Seq<A>) -> Option<A> {
    if s.len() > 0 {
        Some(s[0])
    } else {
        None
    }
}

/// Filtering a prefix that grows by one element.
pub proof fn lemma_filter_take_succ<A>(s: Seq<A>, j: int, pred: spec_fn(A) -> bool)
    requires
        0 <= j < s.len(),
    ensures
        s.take(j + 1).filter(pred) == (if pred(s[j]) {
            s.take(j).filter(pred).push(s[j])
        } else {
            s.take(j).filter(pred)
        }),
{
    reveal(Seq::filter);
    assert(s.take(j + 1).drop_last() =~= s.take(j));
    assert(s.take(j + 1).last() == s[j]);
}

/// A prefix as long as the whole sequence is the sequence.
pub proof fn lemma_take_full<A>(s: Seq<A>)
    ensures
        s.take(s.len() as int) == s,
{
    assert(s.take(s.len() as int) =~= s);
}

/// When no earlier element satisfies the predicate and element `j` does,
/// element `j` heads the filtered sequence.
pub proof fn lemma_first_match<A>(s: Seq<A>, j: int, pred: spec_fn(A) -> bool)
    requires
        0 <= j < s.len(),
        s.take(j).filter(pred).len() == 0,
        pred(s[j]),
    ensures
        s.filter(pred).len() > 0,
        s.filter(pred)[0] == s[j],
        first_of(s.filter(pred)) == Some(s[j]),
{
    lemma_filter_take_succ(s, j, pred);
    let a = s.take(j + 1);
    let b = s.skip(j + 1);
    assert(s =~= a + b);
    Seq::filter_distributes_over_add(a, b, pred);
    assert(a.filter(pred) =~= seq![s[j]]);
}

/// The filter of a sequence of length `n` built by `Seq::new`, extended by one.
pub proof fn lemma_filter_empty<A>(s: Seq<A>, pred: spec_fn(A) -> bool)
    requires
        s.len() == 0,
    ensures
        s.filter(pred) == s,
{
    reveal(Seq::filter);
}

/// When element `i` alone satisfies the predicate, the filter of a prefix
/// holds it exactly when the prefix reaches past it.
pub proof fn lemma_filter_single_prefix<A>(s: Seq<A>, pred: spec_fn(A) -> bool, i: int, k: int)
    requires
        0 <= i < s.len(),
        0 <= k <= s.len(),
        pred(s[i]),
        forall|j: int| 0 <= j < s.len() && j != i ==> !pred(#[trigger] s[j]),
    ensures
        s.take(k).filter(pred) == (if k > i {
            seq![s[i]]
        } else {
            Seq::<A>::empty()
        }),
    decreases k,
{
    if k == 0 {
        lemma_filter_empty(s.take(0), pred);
        assert(s.take(0) =~= Seq::<A>::empty());
    } else {
        lemma_filter_single_prefix(s, pred, i, k - 1);
        lemma_filter_take_succ(s, k - 1, pred);
        if k - 1 == i {
            assert(Seq::<A>::empty().push(s[i]) =~= seq![s[i]]);
        }
    }
}

/// When element `i` alone satisfies the predicate, the filter is that
/// element alone.
pub proof fn lemma_filter_single<A>(s: Seq<A>, pred: spec_fn(A) -> bool, i: int)
    requires
        0 <= i < s.len(),
        pred(s[i]),
        forall|j: int| 0 <= j < s.len() && j != i ==> !pred(#[trigger] s[j]),
    ensures
        s.filter(pred) == seq![s[i]],
{
    lemma_filter_single_prefix(s, pred, i, s.len() as int);
    lemma_take_full(s);
}

} // verus!
