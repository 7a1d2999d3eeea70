use vstd::prelude::*;
use crate::category::{BaseCategory, LawViolation, Morphism};
use crate::functor::FieldFunctor;

verus! {

/// The reference domain: objects are natural numbers and there is one arrow
/// `(a, b)` from every `a` to every `b`.
pub struct NatDomain;

/// The arrow from `.0` to `.1`.
#[derive(Clone, Copy, Debug, PartialEq, Eq, Structural)]
pub struct NatMorphism(pub usize, pub usize);

impl Morphism<usize> for NatMorphism {
    open spec fn source(&self) -> usize {
        self.0
    }

    open spec fn target(&self) -> usize {
        self.1
    }

    open spec fn composite(&self, other: &Self) -> Self {
        NatMorphism(self.0, other.1)
    }

    open spec fn identity(&self) -> bool {
        self.0 == self.1
    }

    fn compose(&self, other: &Self) -> (r: Result<Self, LawViolation>) {
        if self.1 == other.0 {
            Ok(NatMorphism(self.0, other.1))
        } else {
            Err(LawViolation::MismatchedComposition)
        }
    }

    fn is_identity(&self) -> (r: bool) {
        self.0 == self.1
    }

    proof fn lemma_composite_ends(f: &Self, g: &Self) {
    }

    proof fn lemma_composite_associative(f: &Self, g: &Self, h: &Self) {
    }

    proof fn lemma_identity_neutral(e: &Self, f: &Self) {
        if !e.identity() {
            let g = NatMorphism(e.1, e.1);
            assert(e.composite(&g) != g);
        }
    }
}

impl BaseCategory for NatDomain {
    type Obj = usize;

    type Hom = NatMorphism;

    fn id(&self, obj: &usize) -> (r: NatMorphism) {
        NatMorphism(*obj, *obj)
    }

    fn compose(&self, f: &NatMorphism, g: &NatMorphism) -> (r: Result<NatMorphism, LawViolation>) {
        f.compose(g)
    }

    fn same_object(&self, a: &usize, b: &usize) -> (r: bool) {
        *a == *b
    }

    fn same_hom(&self, f: &NatMorphism, g: &NatMorphism) -> (r: bool) {
        f.0 == g.0 && f.1 == g.1
    }
}

/// The reference functor over the naturals. A field carries a seed and the
/// object it lives at; transport along `(a, b)` moves it to `b`, and the field
/// realizes `n` as `(seed, where it lives, n)`.
pub struct NatFunctor;

/// A field of the reference functor: `seed` living at `at`.
#[derive(Clone, Copy, Debug, PartialEq, Eq, Structural)]
pub struct NatField {
    pub at: usize,
    pub seed: u64,
}

impl FieldFunctor<NatDomain> for NatFunctor {
    type Field = NatField;

    type Realizer = (u64, usize, usize);

    open spec fn domain(&self, field: NatField) -> usize {
        field.at
    }

    open spec fn output(&self, field: NatField, obj: usize) -> (u64, usize, usize) {
        (field.seed, field.at, obj)
    }

    open spec fn transport(&self, hom: NatMorphism, field: NatField) -> NatField {
        NatField { at: hom.1, seed: field.seed }
    }

    fn map(&self, hom: &NatMorphism, field: &NatField) -> (r: Result<NatField, LawViolation>) {
        if hom.0 == field.at {
            Ok(NatField { at: hom.1, seed: field.seed })
        } else {
            Err(LawViolation::IncompatibleTransport)
        }
    }

    fn realize(&self, field: &NatField, obj: &usize) -> (r: (u64, usize, usize)) {
        (field.seed, field.at, *obj)
    }

    proof fn lemma_transport_domain(&self, hom: NatMorphism, field: NatField) {
    }

    proof fn lemma_transport_identity(&self, e: NatMorphism, field: NatField) {
    }

    proof fn lemma_transport_composite(&self, f: NatMorphism, g: NatMorphism, field: NatField) {
    }
}

/// Associativity in the reference domain: for composable `f`, `g`, `h` both
/// ways of bracketing compose, and they give the same arrow.
pub proof fn lemma_nat_associative(f: NatMorphism, g: NatMorphism, h: NatMorphism)
    requires
        f.target() == g.source(),
        g.target() == h.source(),
    ensures
        f.composite(&g).target() == h.source(),
        f.target() == g.composite(&h).source(),
        f.composite(&g).composite(&h) == f.composite(&g.composite(&h)),
{
    NatMorphism::lemma_composite_ends(&f, &g);
    NatMorphism::lemma_composite_ends(&g, &h);
    NatMorphism::lemma_composite_associative(&f, &g, &h);
}

/// Identity laws in the reference domain: `(n, n)` is an identity, and
/// composing it on either side of an arrow that meets `n` gives that arrow.
pub proof fn lemma_nat_identity(n: usize, f: NatMorphism)
    ensures
        NatMorphism(n, n).identity(),
        f.source() == n ==> NatMorphism(n, n).composite(&f) == f,
        f.target() == n ==> f.composite(&NatMorphism(n, n)) == f,
{
    NatMorphism::lemma_identity_neutral(&NatMorphism(n, n), &f);
}

/// Functoriality of the reference functor.
pub proof fn lemma_nat_functorial(
    functor: NatFunctor,
    e: NatMorphism,
    f: NatMorphism,
    g: NatMorphism,
    field: NatField,
)
    requires
        f.source() == field.at,
        f.target() == g.source(),
    ensures
        e.identity() && e.source() == field.at ==> functor.transport(e, field) == field,
        functor.transport(f.composite(&g), field) == functor.transport(
            g,
            functor.transport(f, field),
        ),
{
}

} // verus!
