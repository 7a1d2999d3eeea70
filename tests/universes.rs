use slambda_core::{estimate_entropy, GluingCondition, LawViolation, NatDomain, NatFunctor};
use slambda_core::{NatField, NatMorphism, Overlap, Patch, SLambdaRegistry, SemanticContext};
use slambda_core::{SemanticType, SemanticUniverse, StructuralInconsistency};

type Gluing = GluingCondition<NatDomain, NatFunctor>;
type Universe = SemanticUniverse<NatDomain, NatFunctor>;

fn patch(object: usize, covered: usize) -> Patch<NatDomain> {
    Patch { object, restriction: NatMorphism(object, covered) }
}

fn overlap(first: usize, second: usize, from: usize, a: usize, b: usize) -> Overlap<NatDomain> {
    Overlap { first, second, into_first: NatMorphism(from, a), into_second: NatMorphism(from, b) }
}

/// Covers `object` by `parts`, with no declared overlaps.
fn gluing_of(covers: &[(usize, &[usize])]) -> Gluing {
    let mut g = Gluing::new();
    for (object, parts) in covers {
        let patches = parts.iter().map(|p| patch(*p, *object)).collect();
        g.set_cover(&NatDomain, *object, patches, Vec::new());
    }
    g
}

fn universe(covers: &[(usize, &[usize])]) -> Universe {
    SemanticUniverse::new(NatDomain, NatFunctor, gluing_of(covers))
}

#[test]
fn covers_and_local_patches_agree() {
    let g = gluing_of(&[(10, &[1, 2, 3])]);
    let cover: Vec<usize> = g.covers(&NatDomain, &10).into_iter().copied().collect();
    assert_eq!(cover, vec![1, 2, 3]);
    for i in 0..cover.len() {
        assert_eq!(g.local_patch(&NatDomain, &10, i), Ok(&cover[i]));
    }
    assert_eq!(g.local_patch(&NatDomain, &10, 3), Err(LawViolation::CoverIndexOutOfRange));
}

#[test]
fn an_object_without_an_entry_is_irreducible() {
    let g = gluing_of(&[(10, &[1, 2])]);
    assert!(g.covers(&NatDomain, &4).is_empty());
    assert_eq!(g.local_patch(&NatDomain, &4, 0), Err(LawViolation::CoverIndexOutOfRange));
    assert_eq!(g.restriction(&NatDomain, &4, 0), Err(LawViolation::CoverIndexOutOfRange));
}

#[test]
fn restriction_runs_from_the_patch_into_the_object() {
    let g = gluing_of(&[(10, &[1, 2])]);
    assert_eq!(g.restriction(&NatDomain, &10, 1), Ok(&NatMorphism(2, 10)));
    assert_eq!(g.restriction(&NatDomain, &10, 2), Err(LawViolation::CoverIndexOutOfRange));
}

#[test]
fn setting_a_cover_again_replaces_it() {
    let mut g = gluing_of(&[(10, &[1, 2]), (20, &[5])]);
    g.set_cover(&NatDomain, 10, vec![patch(7, 10)], Vec::new());
    assert_eq!(g.entries().len(), 2);
    let cover: Vec<usize> = g.covers(&NatDomain, &10).into_iter().copied().collect();
    assert_eq!(cover, vec![7]);
}

#[test]
fn descent_holds_for_consistent_gluing() {
    let mut g = gluing_of(&[(10, &[])]);
    g.set_cover(&NatDomain, 10, vec![patch(1, 10), patch(2, 10)], vec![overlap(0, 1, 3, 1, 2)]);
    assert_eq!(g.check_descent(&NatDomain), Ok(()));
}

#[test]
fn descent_reports_a_misplaced_restriction() {
    let mut g = Gluing::new();
    g.set_cover(&NatDomain, 10, vec![patch(1, 10), Patch { object: 2, restriction: NatMorphism(2, 9) }], Vec::new());
    assert_eq!(
        g.check_descent(&NatDomain),
        Err(StructuralInconsistency::MisplacedRestriction { cover: 0, patch: 1 })
    );
}

#[test]
fn descent_reports_a_dangling_overlap() {
    let mut g = Gluing::new();
    g.set_cover(&NatDomain, 10, vec![patch(1, 10)], vec![overlap(0, 4, 3, 1, 1)]);
    assert_eq!(
        g.check_descent(&NatDomain),
        Err(StructuralInconsistency::DanglingOverlap { cover: 0, overlap: 0 })
    );
    let mut h = Gluing::new();
    h.set_cover(&NatDomain, 10, vec![patch(1, 10), patch(2, 10)], vec![overlap(0, 1, 3, 1, 6)]);
    assert_eq!(
        h.check_descent(&NatDomain),
        Err(StructuralInconsistency::DanglingOverlap { cover: 0, overlap: 0 })
    );
}

#[test]
fn descent_reports_a_cocycle_failure() {
    let mut g = Gluing::new();
    g.set_cover(&NatDomain, 10, vec![patch(1, 10), patch(2, 10)], Vec::new());
    g.set_cover(
        &NatDomain,
        20,
        vec![patch(1, 20), Patch { object: 2, restriction: NatMorphism(2, 20) }],
        vec![Overlap { first: 0, second: 1, into_first: NatMorphism(3, 1), into_second: NatMorphism(4, 2) }],
    );
    assert_eq!(
        g.check_descent(&NatDomain),
        Err(StructuralInconsistency::CocycleFailure { cover: 1, first: 0, second: 1 })
    );
}

#[test]
fn entropy_counts_objects_and_patches() {
    assert_eq!(estimate_entropy(&universe(&[])), 0);
    assert_eq!(estimate_entropy(&universe(&[(10, &[])])), 1);
    assert_eq!(estimate_entropy(&universe(&[(10, &[1, 2, 3]), (20, &[4])])), 6);
}

#[test]
fn entropy_grows_with_covers() {
    let a = universe(&[(10, &[1]), (20, &[2])]);
    let b = universe(&[(10, &[1, 5]), (20, &[2, 6, 7])]);
    assert!(estimate_entropy(&b) >= estimate_entropy(&a));
    assert_eq!(estimate_entropy(&a), 4);
    assert_eq!(estimate_entropy(&b), 7);
}

#[test]
fn registry_stratifies_in_insertion_order() {
    let mut registry = SLambdaRegistry::new();
    registry.add(universe(&[(10, &[1, 2, 3])]));
    registry.add(universe(&[(10, &[])]));
    registry.add(universe(&[(10, &[1]), (20, &[])]));
    let entropies = |t: usize| -> Vec<usize> {
        registry.stratify_by_entropy(t).into_iter().map(|u| estimate_entropy(u)).collect()
    };
    assert_eq!(entropies(3), vec![1, 3]);
    assert_eq!(entropies(1), vec![1]);
    assert_eq!(entropies(0), Vec::<usize>::new());
    assert_eq!(entropies(usize::MAX), vec![4, 1, 3]);
}

#[test]
fn registry_keeps_duplicates() {
    let mut registry = SLambdaRegistry::new();
    assert!(registry.stratify_by_entropy(usize::MAX).is_empty());
    registry.add(universe(&[(10, &[1])]));
    registry.add(universe(&[(10, &[1])]));
    assert_eq!(registry.stratify_by_entropy(2).len(), 2);
}

#[test]
fn semantic_type_holds_the_realizer() {
    let t: SemanticType<NatDomain, NatFunctor> =
        SemanticType::realize(&NatFunctor, &NatField { at: 4, seed: 9 }, 6);
    assert_eq!(t.base, 6);
    assert_eq!(t.fiber, (9, 4, 6));
}

#[test]
fn context_grows_at_its_end() {
    let empty: SemanticContext<NatDomain> = SemanticContext::empty();
    assert!(empty.is_empty());
    assert!(empty.last().is_none());
    assert!(empty.parent().is_none());
    let ctx = empty.extend(3).extend(8);
    assert!(!ctx.is_empty());
    assert_eq!(ctx.last(), Some(&8));
    assert_eq!(ctx.parent().unwrap().last(), Some(&3));
    assert!(ctx.parent().unwrap().parent().unwrap().is_empty());
}

#[test]
fn universe_validation_uses_its_gluing() {
    let good = universe(&[(10, &[1, 2])]);
    assert_eq!(good.validate(), Ok(()));
    let mut g = Gluing::new();
    g.set_cover(&NatDomain, 10, vec![Patch { object: 1, restriction: NatMorphism(0, 10) }], Vec::new());
    let bad = SemanticUniverse::new(NatDomain, NatFunctor, g);
    assert_eq!(
        bad.validate(),
        Err(StructuralInconsistency::MisplacedRestriction { cover: 0, patch: 0 })
    );
}
