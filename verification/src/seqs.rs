//! Facts about filtered sequences.

use vstd::prelude::*;

verus! {

/// Whether `related` holds of every two elements of `s`, the earlier one
/// first.
pub open spec fn pairwise<A>(s: Seq<A>, related: spec_fn(A, A) -> bool) -> bool {
    forall|i: int, j: int| 0 <= i < j < s.len() ==> related(#[trigger] s[i], #[trigger] s[j])
}

/// Every element of a filtered sequence is an element of the sequence and
/// meets the filter; every element that meets the filter is kept.
pub proof fn lemma_filter_members<A>(s: Seq<A>, keep: spec_fn(A) -> bool)
    ensures
        forall|i: int|
            0 <= i < s.filter(keep).len() ==> keep(#[trigger] s.filter(keep)[i]) && s.contains(
                s.filter(keep)[i],
            ),
        forall|i: int| 0 <= i < s.len() && keep(s[i]) ==> s.filter(keep).contains(#[trigger] s[i]),
{
    let kept = s.filter(keep);
    assert forall|i: int| 0 <= i < kept.len() implies keep(#[trigger] kept[i]) && s.contains(
        kept[i],
    ) by {
        s.lemma_filter_pred(keep, i);
        assert(kept.contains(kept[i]));
        s.lemma_filter_contains_rev(keep, kept[i]);
    }
    assert forall|i: int| 0 <= i < s.len() && keep(s[i]) implies kept.contains(#[trigger] s[i]) by {
        s.lemma_filter_contains(keep, i);
    }
}

/// A relation that holds of every two elements of a sequence, the earlier
/// one first, holds of every two elements that a filter keeps.
pub proof fn lemma_filter_pairwise<A>(
    s: Seq<A>,
    keep: spec_fn(A) -> bool,
    related: spec_fn(A, A) -> bool,
)
    requires
        pairwise(s, related),
    ensures
        pairwise(s.filter(keep), related),
    decreases s.len(),
{
    s.lemma_filter_len(keep);
    if s.len() > 0 {
        let rest = s.drop_last();
        let kept_rest = rest.filter(keep);
        assert(s =~= rest.push(s.last()));
        rest.lemma_filter_push(s.last(), keep);
        assert(pairwise(rest, related)) by {
            assert forall|i: int, j: int| 0 <= i < j < rest.len() implies related(
                #[trigger] rest[i],
                #[trigger] rest[j],
            ) by {
                assert(rest[i] == s[i] && rest[j] == s[j]);
            }
        }
        lemma_filter_pairwise(rest, keep, related);
        lemma_filter_members(rest, keep);
        let kept = s.filter(keep);
        assert forall|i: int, j: int| 0 <= i < j < kept.len() implies related(
            #[trigger] kept[i],
            #[trigger] kept[j],
        ) by {
            if j < kept_rest.len() {
                assert(kept[i] == kept_rest[i] && kept[j] == kept_rest[j]);
            } else {
                assert(kept[i] == kept_rest[i]);
                let a = choose|a: int| 0 <= a < rest.len() && rest[a] == kept_rest[i];
                assert(s[a] == rest[a]);
                assert(kept[j] == s[s.len() - 1]);
            }
        }
    }
}

} // verus!
