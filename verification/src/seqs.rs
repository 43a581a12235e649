//! Small general facts about filtered sequences that several modules share.

use vstd::prelude::*;
use vstd::seq_lib::*;

verus! {

/// Every element of a filtered sequence occurs in the original and
/// satisfies the predicate.
pub(crate) proof fn lemma_filter_subset<A>(s: Seq<A>, pred: spec_fn(A) -> bool, i: int)
    requires
        0 <= i < s.filter(pred).len(),
    ensures
        s.contains(s.filter(pred)[i]),
        pred(s.filter(pred)[i]),
    decreases s.len(),
{
    reveal(Seq::filter);
    broadcast use Seq::lemma_filter_pred;

    let f = s.filter(pred);
    let sub = s.drop_last().filter(pred);
    if pred(s.last()) && i == f.len() - 1 {
        assert(s[s.len() - 1] == f[i]);
    } else {
        lemma_filter_subset(s.drop_last(), pred, i);
        let j = choose|j: int| 0 <= j < s.drop_last().len() && s.drop_last()[j] == sub[i];
        assert(s[j] == f[i]);
    }
}

/// Filtering a sequence without duplicate elements yields one without
/// duplicate elements.
pub(crate) proof fn lemma_filter_no_duplicates<A>(s: Seq<A>, pred: spec_fn(A) -> bool)
    requires
        s.no_duplicates(),
    ensures
        s.filter(pred).no_duplicates(),
    decreases s.len(),
{
    reveal(Seq::filter);
    if s.len() > 0 {
        let sub = s.drop_last().filter(pred);
        lemma_filter_no_duplicates(s.drop_last(), pred);
        if pred(s.last()) {
            assert forall|i: int| 0 <= i < sub.len() implies sub[i] != s.last() by {
                lemma_filter_subset(s.drop_last(), pred, i);
                let j = choose|j: int|
                    0 <= j < s.drop_last().len() && s.drop_last()[j] == sub[i];
                assert(s[j] == sub[i]);
            }
        }
    }
}

} // verus!
