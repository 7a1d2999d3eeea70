use vstd::prelude::*;
use crate::category::BaseCategory;
use crate::functor::FieldFunctor;
use crate::gluing::{GluingCondition, StructuralInconsistency};

verus! {

/// A semantic universe: a base category, a field functor over it and gluing
/// data over its objects, owned together and never changed after assembly.
pub struct SemanticUniverse<C: BaseCategory, F: FieldFunctor<C>> {
    pub category: C,
    pub functor: F,
    pub gluing: GluingCondition<C, F>,
}

impl<C: BaseCategory, F: FieldFunctor<C>> SemanticUniverse<C, F> {
    pub fn new(category: C, functor: F, gluing: GluingCondition<C, F>) -> (r: Self)
        ensures
            r.category == category,
            r.functor == functor,
            r.gluing == gluing,
    {
        SemanticUniverse { category, functor, gluing }
    }

    /// The validation pass over the universe's gluing data, in its own category.
    pub fn validate(&self) -> (r: Result<(), StructuralInconsistency>)
        ensures
            r is Ok <==> self.gluing.descent_holds(),
            r is Err ==> self.gluing.witness(r->Err_0),
    {
        self.gluing.check_descent(&self.category)
    }
}

/// A realized semantic type: a base object and the realizer a field produced for it.
pub struct SemanticType<C: BaseCategory, F: FieldFunctor<C>> {
    pub base: C::Obj,
    pub fiber: F::Realizer,
}

impl<C: BaseCategory, F: FieldFunctor<C>> SemanticType<C, F> {
    /// Applies `field` to `base`.
    pub fn realize(functor: &F, field: &F::Field, base: C::Obj) -> (r: Self)
        ensures
            r.base == base,
            r.fiber == functor.output(*field, base),
    {
        let fiber = functor.realize(field, &base);
        SemanticType { base, fiber }
    }
}

/// A typing environment: an ordered list of objects, grown only at its end.
pub enum SemanticContext<C: BaseCategory> {
    Empty,
    Extend(Box<SemanticContext<C>>, C::Obj),
}

impl<C: BaseCategory> SemanticContext<C> {
    /// The objects of the context, oldest first.
    pub open spec fn objects(&self) -> Seq<C::Obj>
        decreases self,
    {
        match self {
            SemanticContext::Empty => Seq::empty(),
            SemanticContext::Extend(parent, obj) => parent.objects().push(*obj),
        }
    }

    pub fn empty() -> (r: Self)
        ensures
            r.objects() == Seq::<C::Obj>::empty(),
    {
        SemanticContext::Empty
    }

    /// The context with `obj` added at its end; the parent is kept, not copied.
    pub fn extend(self, obj: C::Obj) -> (r: Self)
        ensures
            r.objects() == self.objects().push(obj),
    {
        SemanticContext::Extend(Box::new(self), obj)
    }

    pub fn is_empty(&self) -> (r: bool)
        ensures
            r == (self.objects().len() == 0),
    {
        match self {
            SemanticContext::Empty => true,
            SemanticContext::Extend(..) => false,
        }
    }

    /// The most recently added object.
    pub fn last(&self) -> (r: Option<&C::Obj>)
        ensures
            self.objects().len() == 0 ==> r is None,
            self.objects().len() > 0 ==> r is Some && *r->0 == self.objects().last(),
    {
        match self {
            SemanticContext::Empty => None,
            SemanticContext::Extend(_, obj) => Some(obj),
        }
    }

    /// The context without its most recently added object.
    pub fn parent(&self) -> (r: Option<&SemanticContext<C>>)
        ensures
            self.objects().len() == 0 ==> r is None,
            self.objects().len() > 0 ==> r is Some && r->0.objects() == self.objects().drop_last(),
    {
        match self {
            SemanticContext::Empty => None,
            SemanticContext::Extend(parent, _) => {
                assert(self.objects().drop_last() =~= parent.objects());
                Some(&**parent)
            },
        }
    }
}

} // verus!
