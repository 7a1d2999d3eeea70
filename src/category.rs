use vstd::prelude::*;

verus! {

/// A failure of a categorical law at call time: a programmer or integration
/// error, reported at once and never recovered from.
#[derive(Clone, Copy, Debug, PartialEq, Eq, Structural)]
pub enum LawViolation {
    /// The target of the first arrow is not the source of the second.
    MismatchedComposition,
    /// A field was transported along an arrow that does not start where the field lives.
    IncompatibleTransport,
    /// A cover index at or past the length of the cover.
    CoverIndexOutOfRange,
}

/// The law a morphism type obeys. Arrows compose in diagrammatic order:
/// `f.compose(g)` is "first `f`, then `g`", defined when `f` ends where `g` starts.
///
/// The proof functions are the category laws: every implementation proves them.
pub trait Morphism<Obj>: Sized {
    /// The object the arrow starts at.
    spec fn source(&self) -> Obj;

    /// The object the arrow ends at.
    spec fn target(&self) -> Obj;

    /// The composite "first `self`, then `other`", meaningful when they are composable.
    spec fn composite(&self, other: &Self) -> Self;

    /// Whether the arrow is an identity.
    spec fn identity(&self) -> bool;

    /// Composes two arrows, failing when they do not meet.
    fn compose(&self, other: &Self) -> (r: Result<Self, LawViolation>)
        ensures
            self.target() == other.source() ==> r == Ok::<Self, LawViolation>(self.composite(other)),
            self.target() != other.source() ==> r == Err::<Self, LawViolation>(
                LawViolation::MismatchedComposition,
            ),
    ;

    fn is_identity(&self) -> (r: bool)
        ensures
            r == self.identity(),
    ;

    /// A composite runs from the first arrow's source to the second arrow's target.
    proof fn lemma_composite_ends(f: &Self, g: &Self)
        requires
            f.target() == g.source(),
        ensures
            f.composite(g).source() == f.source(),
            f.composite(g).target() == g.target(),
    ;

    /// Composition is associative on composable triples.
    proof fn lemma_composite_associative(f: &Self, g: &Self, h: &Self)
        requires
            f.target() == g.source(),
            g.target() == h.source(),
        ensures
            f.composite(g).composite(&h) == f.composite(&g.composite(h)),
    ;

    /// An identity is an endo-arrow that leaves every arrow it composes with unchanged,
    /// and an arrow that is not an identity changes some arrow it composes with.
    proof fn lemma_identity_neutral(e: &Self, f: &Self)
        ensures
            e.identity() ==> e.source() == e.target(),
            e.identity() && e.target() == f.source() ==> e.composite(f) == *f,
            e.identity() && f.target() == e.source() ==> f.composite(e) == *f,
            !e.identity() ==> exists|g: Self| g.source() == e.target() && #[trigger] e.composite(&g) != g,
    ;
}

/// A provider of identities and composition over a type of objects and a type of arrows.
pub trait BaseCategory {
    type Obj;

    type Hom: Morphism<Self::Obj>;

    /// The identity arrow of `obj`.
    fn id(&self, obj: &Self::Obj) -> (r: Self::Hom)
        ensures
            r.identity(),
            r.source() == *obj,
            r.target() == *obj,
    ;

    /// Composition in the category's own order, with the result of `f.compose(g)`.
    fn compose(&self, f: &Self::Hom, g: &Self::Hom) -> (r: Result<Self::Hom, LawViolation>)
        ensures
            f.target() == g.source() ==> r == Ok::<Self::Hom, LawViolation>(f.composite(g)),
            f.target() != g.source() ==> r == Err::<Self::Hom, LawViolation>(
                LawViolation::MismatchedComposition,
            ),
    ;

    /// Equality of objects, which are otherwise opaque to generic code.
    fn same_object(&self, a: &Self::Obj, b: &Self::Obj) -> (r: bool)
        ensures
            r == (*a == *b),
    ;

    /// Equality of arrows, which are otherwise opaque to generic code.
    fn same_hom(&self, f: &Self::Hom, g: &Self::Hom) -> (r: bool)
        ensures
            r == (*f == *g),
    ;
}

} // verus!
