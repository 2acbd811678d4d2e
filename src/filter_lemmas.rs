//! Facts about filtering sequences of records, used by the sorting proofs.

use vstd::prelude::*;
use crate::record::AppElement;

verus! {

pub(crate) proof fn lemma_filter_empty(s: Seq<AppElement>, p: spec_fn(AppElement) -> bool)
    requires
        s.len() == 0,
    ensures
        s.filter(p) == Seq::<AppElement>::empty(),
{
    reveal(Seq::filter);
    assert(s =~= Seq::<AppElement>::empty());
}

pub(crate) proof fn lemma_filter_none(s: Seq<AppElement>, p: spec_fn(AppElement) -> bool)
    requires
        forall|i: int| 0 <= i < s.len() ==> !p(#[trigger] s[i]),
    ensures
        s.filter(p) == Seq::<AppElement>::empty(),
    decreases s.len(),
{
    reveal(Seq::filter);
    if s.len() > 0 {
        lemma_filter_none(s.drop_last(), p);
        assert(!p(s[s.len() - 1]));
    }
}

pub(crate) proof fn lemma_filter_single(x: AppElement, p: spec_fn(AppElement) -> bool)
    ensures
        seq![x].filter(p) == (if p(x) {
            seq![x]
        } else {
            Seq::<AppElement>::empty()
        }),
{
    reveal(Seq::filter);
    assert(seq![x].drop_last() =~= Seq::<AppElement>::empty());
    lemma_filter_empty(seq![x].drop_last(), p);
    assert(seq![x].last() == x);
    if p(x) {
        assert(Seq::<AppElement>::empty().push(x) =~= seq![x]);
    }
}

/// Filtering a sequence with an element inserted at `pos`: the part before,
/// the element where it passes, and the part after.
pub(crate) proof fn lemma_filter_insert(s: Seq<AppElement>, pos: int, x: AppElement, p: spec_fn(AppElement) -> bool)
    requires
        0 <= pos <= s.len(),
    ensures
        s.insert(pos, x).filter(p) == s.subrange(0, pos).filter(p) + seq![x].filter(p)
            + s.subrange(pos, s.len() as int).filter(p),
        s.filter(p) == s.subrange(0, pos).filter(p) + s.subrange(pos, s.len() as int).filter(p),
{
    let a = s.subrange(0, pos);
    let b = s.subrange(pos, s.len() as int);
    assert(s.insert(pos, x) =~= a + seq![x] + b);
    assert(s =~= a + b);
    Seq::filter_distributes_over_add(a + seq![x], b, p);
    Seq::filter_distributes_over_add(a, seq![x], p);
    Seq::filter_distributes_over_add(a, b, p);
}

} // verus!
