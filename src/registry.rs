use vstd::prelude::*;
use crate::category::BaseCategory;
use crate::entropy::{entropy, estimate_entropy};
use crate::functor::FieldFunctor;
use crate::universe::SemanticUniverse;

verus! {

/// The universes of `s` whose entropy is at most `threshold`, in their order in `s`.
pub open spec fn stratum<C: BaseCategory, F: FieldFunctor<C>>(
    s: Seq<SemanticUniverse<C, F>>,
    threshold: usize,
) -> Seq<SemanticUniverse<C, F>> {
    s.filter(|u: SemanticUniverse<C, F>| entropy(u) <= threshold)
}

/// An ordered collection of universes: insertion order is kept, nothing is
/// deduplicated and nothing is removed.
pub struct SLambdaRegistry<C: BaseCategory, F: FieldFunctor<C>> {
    universes: Vec<SemanticUniverse<C, F>>,
}

impl<C: BaseCategory, F: FieldFunctor<C>> View for SLambdaRegistry<C, F> {
    type V = Seq<SemanticUniverse<C, F>>;

    closed spec fn view(&self) -> Seq<SemanticUniverse<C, F>> {
        self.universes@
    }
}

impl<C: BaseCategory, F: FieldFunctor<C>> SLambdaRegistry<C, F> {
    pub fn new() -> (r: Self)
        ensures
            r@ == Seq::<SemanticUniverse<C, F>>::empty(),
    {
        SLambdaRegistry { universes: Vec::new() }
    }

    /// Appends `universe`.
    pub fn add(&mut self, universe: SemanticUniverse<C, F>)
        ensures
            final(self)@ == old(self)@.push(universe),
    {
        self.universes.push(universe);
    }

    /// The stored universes whose entropy is at most `threshold`, in insertion
    /// order, borrowed rather than copied.
    pub fn stratify_by_entropy(&self, threshold: usize) -> (r: Vec<&SemanticUniverse<C, F>>)
        ensures
            r@.len() == stratum(self@, threshold).len(),
            forall|i: int| 0 <= i < r@.len() ==> *r@[i] == stratum(self@, threshold)[i],
    {
        let mut r: Vec<&SemanticUniverse<C, F>> = Vec::new();
        let mut k: usize = 0;
        while k < self.universes.len()
            invariant
                k <= self@.len(),
                r@.len() == stratum(self@.take(k as int), threshold).len(),
                forall|i: int|
                    0 <= i < r@.len() ==> *r@[i] == stratum(self@.take(k as int), threshold)[i],
            decreases self@.len() - k,
        {
            let u = &self.universes[k];
            proof {
                reveal(Seq::filter);
                assert(self@.take(k + 1).drop_last() =~= self@.take(k as int));
                assert(self@.take(k + 1).last() == self@[k as int]);
            }
            if estimate_entropy(u) <= threshold {
                r.push(u);
            }
            k = k + 1;
        }
        assert(self@.take(k as int) =~= self@);
        r
    }
}

/// Stratifying by the largest threshold keeps every universe.
pub proof fn lemma_stratum_max<C: BaseCategory, F: FieldFunctor<C>>(s: Seq<SemanticUniverse<C, F>>)
    ensures
        stratum(s, usize::MAX) == s,
    decreases s.len(),
{
    reveal(Seq::filter);
    if s.len() > 0 {
        lemma_stratum_max(s.drop_last());
        assert(s.drop_last().push(s.last()) =~= s);
    }
}

/// Stratifying by zero keeps no universe of positive entropy.
pub proof fn lemma_stratum_zero<C: BaseCategory, F: FieldFunctor<C>>(s: Seq<SemanticUniverse<C, F>>)
    requires
        forall|i: int| 0 <= i < s.len() ==> entropy(#[trigger] s[i]) > 0,
    ensures
        stratum(s, 0) == Seq::<SemanticUniverse<C, F>>::empty(),
    decreases s.len(),
{
    reveal(Seq::filter);
    if s.len() > 0 {
        assert(entropy(s[s.len() - 1]) > 0);
        lemma_stratum_zero(s.drop_last());
    }
}

/// Stratification of three added universes: the result is exactly those of
/// `u1, u2, u3` with entropy at most `t`, in that order; with threshold zero
/// and only universes of positive entropy it is empty; with threshold
/// `usize::MAX` it is all three.
pub proof fn lemma_stratify_three<C: BaseCategory, F: FieldFunctor<C>>(
    u1: SemanticUniverse<C, F>,
    u2: SemanticUniverse<C, F>,
    u3: SemanticUniverse<C, F>,
    t: usize,
)
    ensures
        stratum(seq![u1, u2, u3], t) == {
            let s1 = if entropy(u1) <= t { seq![u1] } else { Seq::empty() };
            let s2 = if entropy(u2) <= t { s1.push(u2) } else { s1 };
            if entropy(u3) <= t { s2.push(u3) } else { s2 }
        },
        entropy(u1) > 0 && entropy(u2) > 0 && entropy(u3) > 0 ==> stratum(seq![u1, u2, u3], 0)
            == Seq::<SemanticUniverse<C, F>>::empty(),
        stratum(seq![u1, u2, u3], usize::MAX) == seq![u1, u2, u3],
{
    let s = seq![u1, u2, u3];
    reveal_with_fuel(Seq::filter, 4);
    assert(s.drop_last() =~= seq![u1, u2]);
    assert(seq![u1, u2].drop_last() =~= seq![u1]);
    assert(seq![u1].drop_last() =~= Seq::<SemanticUniverse<C, F>>::empty());
    if entropy(u1) > 0 && entropy(u2) > 0 && entropy(u3) > 0 {
        lemma_stratum_zero(s);
    }
    lemma_stratum_max(s);
}

} // verus!
