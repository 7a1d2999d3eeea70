use slambda_core::{BaseCategory, FieldFunctor, LawViolation, Morphism};
use slambda_core::{NatDomain, NatField, NatFunctor, NatMorphism};

#[test]
fn test_nat_domain() {
    let domain = NatDomain;
    let id_1 = domain.id(&1);
    let id_2 = domain.id(&2);

    assert!(id_1.is_identity());
    assert!(id_2.is_identity());
}

#[test]
fn identity_is_the_pair_of_the_object() {
    let domain = NatDomain;
    assert_eq!(domain.id(&7), NatMorphism(7, 7));
    assert!(!NatMorphism(3, 4).is_identity());
}

#[test]
fn composition_of_meeting_arrows() {
    let domain = NatDomain;
    assert_eq!(domain.compose(&NatMorphism(1, 2), &NatMorphism(2, 4)), Ok(NatMorphism(1, 4)));
    assert_eq!(NatMorphism(5, 0).compose(&NatMorphism(0, 9)), Ok(NatMorphism(5, 9)));
}

#[test]
fn mismatched_composition_fails() {
    let domain = NatDomain;
    assert_eq!(
        domain.compose(&NatMorphism(1, 2), &NatMorphism(3, 4)),
        Err(LawViolation::MismatchedComposition)
    );
    assert_eq!(
        NatMorphism(1, 2).compose(&NatMorphism(3, 4)),
        Err(LawViolation::MismatchedComposition)
    );
}

#[test]
fn composition_is_associative() {
    let domain = NatDomain;
    let (f, g, h) = (NatMorphism(1, 2), NatMorphism(2, 3), NatMorphism(3, 4));
    let fg = domain.compose(&f, &g).unwrap();
    let gh = domain.compose(&g, &h).unwrap();
    let left = domain.compose(&fg, &h).unwrap();
    let right = domain.compose(&f, &gh).unwrap();
    assert_eq!(left, right);
    assert_eq!(left, NatMorphism(1, 4));
}

#[test]
fn identities_are_neutral() {
    let domain = NatDomain;
    let f = NatMorphism(3, 8);
    assert_eq!(domain.compose(&domain.id(&3), &f), Ok(f));
    assert_eq!(domain.compose(&f, &domain.id(&8)), Ok(f));
}

#[test]
fn objects_and_arrows_compare() {
    let domain = NatDomain;
    assert!(domain.same_object(&4, &4));
    assert!(!domain.same_object(&4, &5));
    assert!(domain.same_hom(&NatMorphism(1, 2), &NatMorphism(1, 2)));
    assert!(!domain.same_hom(&NatMorphism(1, 2), &NatMorphism(2, 1)));
}

#[test]
fn transport_moves_a_field() {
    let functor = NatFunctor;
    let field = NatField { at: 2, seed: 11 };
    let moved = FieldFunctor::<NatDomain>::map(&functor, &NatMorphism(2, 6), &field).unwrap();
    assert_eq!(moved, NatField { at: 6, seed: 11 });
    assert_eq!(FieldFunctor::<NatDomain>::realize(&functor, &moved, &3), (11, 6, 3));
    assert_eq!(FieldFunctor::<NatDomain>::realize(&functor, &field, &3), (11, 2, 3));
}

#[test]
fn transport_along_a_foreign_arrow_fails() {
    let functor = NatFunctor;
    let field = NatField { at: 2, seed: 11 };
    assert_eq!(
        FieldFunctor::<NatDomain>::map(&functor, &NatMorphism(3, 6), &field),
        Err(LawViolation::IncompatibleTransport)
    );
}

#[test]
fn transport_is_functorial() {
    let domain = NatDomain;
    let functor = NatFunctor;
    let field = NatField { at: 1, seed: 4 };
    let (f, g) = (NatMorphism(1, 5), NatMorphism(5, 2));
    let fg = domain.compose(&f, &g).unwrap();
    let direct = FieldFunctor::<NatDomain>::map(&functor, &fg, &field).unwrap();
    let step = FieldFunctor::<NatDomain>::map(&functor, &f, &field).unwrap();
    let stepped = FieldFunctor::<NatDomain>::map(&functor, &g, &step).unwrap();
    for probe in [0usize, 1, 2, 5, 9] {
        assert_eq!(
            FieldFunctor::<NatDomain>::realize(&functor, &direct, &probe),
            FieldFunctor::<NatDomain>::realize(&functor, &stepped, &probe)
        );
    }
    let unchanged = FieldFunctor::<NatDomain>::map(&functor, &domain.id(&1), &field).unwrap();
    assert_eq!(unchanged, field);
}
