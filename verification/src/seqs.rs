//! Facts about sequences that several modules lean on.

use vstd::prelude::*;

verus! {

/// Filtering one item more either adds that item at the end or changes nothing.
pub proof fn lemma_filter_next<T>(s: Seq<T>, keep: spec_fn(T) -> bool, i: int)
    requires
        0 <= i < s.len(),
    ensures
        s.take(i + 1).filter(keep) == if keep(s[i]) {
            s.take(i).filter(keep).push(s[i])
        } else {
            s.take(i).filter(keep)
        },
{
    reveal(Seq::filter);
    assert(s.take(i + 1).drop_last() == s.take(i));
    assert(s.take(i + 1).last() == s[i]);
}

/// Nothing passes the filter of nothing.
pub proof fn lemma_filter_empty<T>(s: Seq<T>, keep: spec_fn(T) -> bool)
    requires
        s.len() == 0,
    ensures
        s.filter(keep) == Seq::<T>::empty(),
{
    reveal(Seq::filter);
}

/// What passes a filter is part of what was filtered, in the same order.
pub proof fn lemma_filter_members<T>(s: Seq<T>, keep: spec_fn(T) -> bool)
    ensures
        s.filter(keep).len() <= s.len(),
        forall|i: int| 0 <= i < s.filter(keep).len() ==> keep(#[trigger] s.filter(keep)[i]),
        forall|i: int|
            0 <= i < s.filter(keep).len() ==> s.contains(#[trigger] s.filter(keep)[i]),
        forall|i: int| 0 <= i < s.len() && keep(s[i]) ==> s.filter(keep).contains(#[trigger] s[i]),
    decreases s.len(),
{
    reveal(Seq::filter);
    if s.len() > 0 {
        let init = s.drop_last();
        lemma_filter_members(init, keep);
        let f = s.filter(keep);
        assert forall|i: int| 0 <= i < f.len() implies s.contains(#[trigger] f[i]) by {
            if i < init.filter(keep).len() {
                assert(init.contains(init.filter(keep)[i]));
                let k = choose|k: int| 0 <= k < init.len() && init[k] == init.filter(keep)[i];
                assert(s[k] == f[i]);
            } else {
                assert(f[i] == s[s.len() - 1]);
            }
        }
        assert forall|i: int| 0 <= i < s.len() && keep(s[i]) implies f.contains(
            #[trigger] s[i],
        ) by {
            if i < init.len() {
                assert(init[i] == s[i]);
                assert(init.filter(keep).contains(init[i]));
                let k = choose|k: int|
                    0 <= k < init.filter(keep).len() && init.filter(keep)[k] == init[i];
                assert(f[k] == s[i]);
            } else {
                assert(f[f.len() - 1] == s[i]);
            }
        }
    }
}

} // verus!
