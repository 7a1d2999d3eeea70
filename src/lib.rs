//! Semantic universes: a base category of semantic types, a functor that
//! assigns realizer fields to its objects, and gluing data over finite covers,
//! together with a structural entropy measure and a registry that stratifies
//! universes by it.

pub mod category;
pub mod functor;
pub mod gluing;
pub mod universe;
pub mod entropy;
pub mod registry;
pub mod naturals;

pub use category::{BaseCategory, LawViolation, Morphism};
pub use functor::FieldFunctor;
pub use gluing::{CoverEntry, GluingCondition, Overlap, Patch, StructuralInconsistency};
pub use universe::{SemanticContext, SemanticType, SemanticUniverse};
pub use entropy::estimate_entropy;
pub use registry::SLambdaRegistry;
pub use naturals::{NatDomain, NatField, NatFunctor, NatMorphism};
