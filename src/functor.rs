use vstd::prelude::*;
use crate::category::{BaseCategory, LawViolation, Morphism};

verus! {

/// A functor that assigns realizer fields to the objects of a category.
///
/// A field lives at one object (its domain) and produces a realizer for any
/// object it is applied to. Transport is covariant: `map(hom, field)` takes a
/// field living at `hom`'s source to a field living at `hom`'s target. Two fields
/// count as equal when they live at the same object and produce the same
/// realizers everywhere.
pub trait FieldFunctor<C: BaseCategory> {
    type Field;

    type Realizer;

    /// The object the field lives at.
    spec fn domain(&self, field: Self::Field) -> C::Obj;

    /// What the field produces for `obj`.
    spec fn output(&self, field: Self::Field, obj: C::Obj) -> Self::Realizer;

    /// The field transported along `hom`, meaningful when `hom` starts at its domain.
    spec fn transport(&self, hom: C::Hom, field: Self::Field) -> Self::Field;

    /// Transports `field` along `hom`, failing when `hom` does not start where
    /// the field lives.
    fn map(&self, hom: &C::Hom, field: &Self::Field) -> (r: Result<Self::Field, LawViolation>)
        ensures
            hom.source() == self.domain(*field) ==> r == Ok::<Self::Field, LawViolation>(
                self.transport(*hom, *field),
            ),
            hom.source() != self.domain(*field) ==> r == Err::<Self::Field, LawViolation>(
                LawViolation::IncompatibleTransport,
            ),
    ;

    /// Applies `field` to `obj`.
    fn realize(&self, field: &Self::Field, obj: &C::Obj) -> (r: Self::Realizer)
        ensures
            r == self.output(*field, *obj),
    ;

    /// A transported field lives at the arrow's target.
    proof fn lemma_transport_domain(&self, hom: C::Hom, field: Self::Field)
        requires
            hom.source() == self.domain(field),
        ensures
            self.domain(self.transport(hom, field)) == hom.target(),
    ;

    /// Transport along an identity changes nothing.
    proof fn lemma_transport_identity(&self, e: C::Hom, field: Self::Field)
        requires
            e.identity(),
            e.source() == self.domain(field),
        ensures
            self.domain(self.transport(e, field)) == self.domain(field),
            forall|obj: C::Obj| #[trigger]
                self.output(self.transport(e, field), obj) == self.output(field, obj),
    ;

    /// Transport along a composite is transport along each arrow in turn.
    proof fn lemma_transport_composite(&self, f: C::Hom, g: C::Hom, field: Self::Field)
        requires
            f.source() == self.domain(field),
            f.target() == g.source(),
        ensures
            self.domain(self.transport(f.composite(&g), field)) == self.domain(
                self.transport(g, self.transport(f, field)),
            ),
            forall|obj: C::Obj| #[trigger]
                self.output(self.transport(f.composite(&g), field), obj) == self.output(
                    self.transport(g, self.transport(f, field)),
                    obj,
                ),
    ;
}

/// Two fields are equal as fields: they live at the same object and produce
/// the same realizer for every object.
pub open spec fn fields_agree<C: BaseCategory, F: FieldFunctor<C>>(
    functor: &F,
    a: F::Field,
    b: F::Field,
) -> bool {
    &&& functor.domain(a) == functor.domain(b)
    &&& forall|obj: C::Obj| #[trigger] functor.output(a, obj) == functor.output(b, obj)
}

/// Functoriality of `map`: mapping along the identity of a field's domain gives
/// back the field, and mapping along a composite `f` then `g` gives the field
/// that mapping along `f` and then along `g` gives, every call succeeding.
pub proof fn lemma_map_functorial<C: BaseCategory, F: FieldFunctor<C>>(
    functor: &F,
    e: C::Hom,
    f: C::Hom,
    g: C::Hom,
    field: F::Field,
)
    requires
        f.source() == functor.domain(field),
        f.target() == g.source(),
    ensures
        e.identity() && e.source() == functor.domain(field) ==> fields_agree(
            functor,
            functor.transport(e, field),
            field,
        ),
        f.composite(&g).source() == functor.domain(field),
        functor.domain(functor.transport(f, field)) == g.source(),
        fields_agree(
            functor,
            functor.transport(f.composite(&g), field),
            functor.transport(g, functor.transport(f, field)),
        ),
{
    if e.identity() && e.source() == functor.domain(field) {
        functor.lemma_transport_identity(e, field);
    }
    C::Hom::lemma_composite_ends(&f, &g);
    functor.lemma_transport_domain(f, field);
    functor.lemma_transport_composite(f, g, field);
}

} // verus!
