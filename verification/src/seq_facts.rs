//! General facts about filtering sequences, shared by the executor's
//! bookkeeping and the filesystem model.

use vstd::prelude::*;

verus! {

/// Filtering drops nothing when every element satisfies the predicate.
pub proof fn lemma_filter_keeps_all<A>(s: Seq<A>, pred: spec_fn(A) -> bool)
    requires
        forall|k: int| 0 <= k < s.len() ==> pred(#[trigger] s[k]),
    ensures
        s.filter(pred) == s,
    decreases s.len(),
{
    reveal(Seq::filter);
    if s.len() > 0 {
        lemma_filter_keeps_all(s.drop_last(), pred);
        assert(s.drop_last().filter(pred).push(s.last()) =~= s);
    }
}

/// Filtering drops exactly the one element that fails the predicate.
pub proof fn lemma_filter_drops_one<A>(s: Seq<A>, pred: spec_fn(A) -> bool, j: int)
    requires
        0 <= j < s.len(),
        !pred(s[j]),
        forall|k: int| 0 <= k < s.len() && k != j ==> pred(#[trigger] s[k]),
    ensures
        s.filter(pred) == s.take(j) + s.skip(j + 1),
    decreases s.len(),
{
    reveal(Seq::filter);
    if j == s.len() - 1 {
        lemma_filter_keeps_all(s.drop_last(), pred);
        assert(s.drop_last() =~= s.take(j) + s.skip(j + 1));
    } else {
        lemma_filter_drops_one(s.drop_last(), pred, j);
        assert(s.drop_last().take(j) =~= s.take(j));
        assert(s.drop_last().skip(j + 1) =~= s.skip(j + 1).drop_last());
        assert(s.filter(pred) == (s.take(j) + s.skip(j + 1).drop_last()).push(s.last()));
        assert((s.take(j) + s.skip(j + 1).drop_last()).push(s.last()) =~= s.take(j) + s.skip(
            j + 1,
        ));
    }
}

/// Whatever filtering keeps was in the sequence and satisfies the predicate.
pub proof fn lemma_filter_subset<A>(s: Seq<A>, pred: spec_fn(A) -> bool)
    ensures
        forall|x: A| #[trigger] s.filter(pred).contains(x) ==> s.contains(x) && pred(x),
    decreases s.len(),
{
    reveal(Seq::filter);
    if s.len() > 0 {
        lemma_filter_subset(s.drop_last(), pred);
        assert forall|x: A| #[trigger] s.filter(pred).contains(x) implies s.contains(x) && pred(
            x,
        ) by {
            let f = s.filter(pred);
            let i = choose|i: int| 0 <= i < f.len() && f[i] == x;
            let sub = s.drop_last().filter(pred);
            if pred(s.last()) && i == f.len() - 1 {
                assert(s[s.len() - 1] == x);
            } else {
                assert(sub[i] == x);
                assert(sub.contains(x));
                let k = choose|k: int| 0 <= k < s.drop_last().len() && s.drop_last()[k] == x;
                assert(s[k] == x);
            }
        }
    }
}

/// Filtering one step further keeps the new element exactly when it
/// satisfies the predicate.
pub proof fn lemma_filter_take_step<A>(s: Seq<A>, pred: spec_fn(A) -> bool, i: int)
    requires
        0 <= i < s.len(),
    ensures
        s.take(i + 1).filter(pred) == (if pred(s[i]) {
            s.take(i).filter(pred).push(s[i])
        } else {
            s.take(i).filter(pred)
        }),
{
    reveal(Seq::filter);
    assert(s.take(i + 1).drop_last() =~= s.take(i));
    assert(s.take(i + 1).last() == s[i]);
}

/// Filtering twice is filtering by both predicates at once.
pub proof fn lemma_filter_compose<A>(
    s: Seq<A>,
    p: spec_fn(A) -> bool,
    q: spec_fn(A) -> bool,
    both: spec_fn(A) -> bool,
)
    requires
        forall|x: A| #[trigger] both(x) == (p(x) && q(x)),
    ensures
        s.filter(p).filter(q) == s.filter(both),
    decreases s.len(),
{
    reveal(Seq::filter);
    if s.len() > 0 {
        lemma_filter_compose(s.drop_last(), p, q, both);
        if p(s.last()) {
            assert(s.filter(p) == s.drop_last().filter(p).push(s.last()));
            assert(s.filter(p).drop_last() =~= s.drop_last().filter(p));
        }
    }
}

} // verus!
