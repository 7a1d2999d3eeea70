use vstd::prelude::*;
use vstd::multiset::Multiset;
use crate::category::BaseCategory;
use crate::functor::FieldFunctor;
use crate::gluing::{patch_objects, CoverEntry};
use crate::universe::SemanticUniverse;

verus! {

/// The structural weight of a list of covers: each covered object counts one
/// (the baseline of an irreducible object) plus one per patch of its cover.
pub open spec fn cover_weight<C: BaseCategory>(entries: Seq<CoverEntry<C>>) -> nat
    decreases entries.len(),
{
    if entries.len() == 0 {
        0
    } else {
        cover_weight(entries.drop_last()) + 1 + entries.last().patches@.len()
    }
}

/// The entropy of a universe: the weight of its gluing data, probed over the
/// objects that have a cover entry, saturating at `usize::MAX`.
pub open spec fn entropy<C: BaseCategory, F: FieldFunctor<C>>(u: SemanticUniverse<C, F>) -> nat {
    let w = cover_weight(u.gluing@);
    if w <= usize::MAX {
        w
    } else {
        usize::MAX as nat
    }
}

/// Computes the entropy of `universe`: a deterministic function of its cover
/// structure alone.
pub fn estimate_entropy<C: BaseCategory, F: FieldFunctor<C>>(
    universe: &SemanticUniverse<C, F>,
) -> (r: usize)
    ensures
        r == entropy(*universe),
{
    let entries = universe.gluing.entries();
    let mut total: usize = 0;
    let mut k: usize = 0;
    while k < entries.len()
        invariant
            k <= entries@.len(),
            entries@ == universe.gluing@,
            total == (if cover_weight(entries@.take(k as int)) <= usize::MAX {
                cover_weight(entries@.take(k as int))
            } else {
                usize::MAX as nat
            }),
        decreases entries@.len() - k,
    {
        let n = entries[k].patches.len();
        assert(entries@.take(k + 1).drop_last() =~= entries@.take(k as int));
        if n >= usize::MAX - total {
            total = usize::MAX;
        } else {
            total = total + 1 + n;
        }
        k = k + 1;
    }
    assert(entries@.take(k as int) =~= entries@);
    total
}

/// The length of a sub-multiset is at most that of the multiset.
proof fn lemma_sub_multiset_len<A>(m1: Multiset<A>, m2: Multiset<A>)
    requires
        m1.subset_of(m2),
    ensures
        m1.len() <= m2.len(),
{
    broadcast use vstd::multiset::group_multiset_axioms;

    assert(m2 =~= m1.add(m2.sub(m1)));
}

/// Cover weight grows with the number of patches of each entry.
proof fn lemma_cover_weight_monotone<C: BaseCategory>(
    a: Seq<CoverEntry<C>>,
    b: Seq<CoverEntry<C>>,
)
    requires
        a.len() == b.len(),
        forall|k: int| 0 <= k < a.len() ==> #[trigger] a[k].patches@.len() <= b[k].patches@.len(),
    ensures
        cover_weight(a) <= cover_weight(b),
    decreases a.len(),
{
    if a.len() > 0 {
        let (ra, rb) = (a.drop_last(), b.drop_last());
        assert forall|k: int| 0 <= k < ra.len() implies #[trigger] ra[k].patches@.len()
            <= rb[k].patches@.len() by {
            assert(a[k].patches@.len() <= b[k].patches@.len());
        }
        lemma_cover_weight_monotone(ra, rb);
        assert(a[a.len() - 1].patches@.len() <= b[b.len() - 1].patches@.len());
    }
}

/// Entropy is monotone in the covers: when `b` covers the same objects as `a`,
/// in the same order, and each cover of `b` contains every patch of the
/// corresponding cover of `a`, `a`'s entropy is at most `b`'s.
pub proof fn lemma_entropy_monotone<C: BaseCategory, F: FieldFunctor<C>>(
    a: SemanticUniverse<C, F>,
    b: SemanticUniverse<C, F>,
)
    requires
        a.gluing@.len() == b.gluing@.len(),
        forall|k: int|
            0 <= k < a.gluing@.len() ==> #[trigger] a.gluing@[k].object == b.gluing@[k].object
                && patch_objects(a.gluing@[k].patches@).to_multiset().subset_of(
                patch_objects(b.gluing@[k].patches@).to_multiset(),
            ),
    ensures
        entropy(a) <= entropy(b),
{
    broadcast use vstd::seq_lib::group_to_multiset_ensures;

    assert forall|k: int| 0 <= k < a.gluing@.len() implies #[trigger] a.gluing@[k].patches@.len()
        <= b.gluing@[k].patches@.len() by {
        let pa = patch_objects(a.gluing@[k].patches@);
        let pb = patch_objects(b.gluing@[k].patches@);
        assert(a.gluing@[k].object == b.gluing@[k].object);
        lemma_sub_multiset_len(pa.to_multiset(), pb.to_multiset());
    }
    lemma_cover_weight_monotone(a.gluing@, b.gluing@);
}

} // verus!
