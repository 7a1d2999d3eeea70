use vstd::prelude::*;
use core::marker::PhantomData;
use crate::category::{BaseCategory, LawViolation, Morphism};
use crate::functor::FieldFunctor;

verus! {

/// One member of a cover: a sub-object together with its restriction, the
/// structure arrow from the sub-object into the covered object.
pub struct Patch<C: BaseCategory> {
    pub object: C::Obj,
    pub restriction: C::Hom,
}

/// A declared overlap between two patches of one cover: an overlap object `O`
/// and the arrows `into_first: O -> patches[first]`, `into_second: O -> patches[second]`.
/// Two patches overlap exactly when such a record names them.
pub struct Overlap<C: BaseCategory> {
    pub first: usize,
    pub second: usize,
    pub into_first: C::Hom,
    pub into_second: C::Hom,
}

/// The cover of one object, with the overlaps declared between its patches.
pub struct CoverEntry<C: BaseCategory> {
    pub object: C::Obj,
    pub patches: Vec<Patch<C>>,
    pub overlaps: Vec<Overlap<C>>,
}

/// Why a gluing condition fails the descent check; indices name the cover
/// entry and the patches or overlap at fault.
#[derive(Clone, Copy, Debug, PartialEq, Eq, Structural)]
pub enum StructuralInconsistency {
    /// The restriction of a patch does not run from the patch into the covered object.
    MisplacedRestriction { cover: usize, patch: usize },
    /// An overlap names a patch that does not exist, or its arrows do not land in the patches.
    DanglingOverlap { cover: usize, overlap: usize },
    /// Going through the overlap into the covered object differs by the two patches.
    CocycleFailure { cover: usize, first: usize, second: usize },
}

/// Gluing data: for finitely many objects, an ordered cover. An object without
/// an entry has the empty cover (it is irreducible).
pub struct GluingCondition<C: BaseCategory, F: FieldFunctor<C>> {
    entries: Vec<CoverEntry<C>>,
    functor: PhantomData<F>,
}

/// The objects of a cover, in order.
pub open spec fn patch_objects<C: BaseCategory>(patches: Seq<Patch<C>>) -> Seq<C::Obj> {
    patches.map_values(|p: Patch<C>| p.object)
}

/// The restriction of a patch runs from the patch into the covered object.
pub open spec fn restriction_placed<C: BaseCategory>(entry: CoverEntry<C>, i: int) -> bool {
    let p = entry.patches@[i];
    p.restriction.source() == p.object && p.restriction.target() == entry.object
}

/// An overlap names two patches of the entry and its arrows land in them.
pub open spec fn overlap_anchored<C: BaseCategory>(entry: CoverEntry<C>, j: int) -> bool {
    let ov = entry.overlaps@[j];
    &&& ov.first < entry.patches@.len()
    &&& ov.second < entry.patches@.len()
    &&& ov.into_first.target() == entry.patches@[ov.first as int].restriction.source()
    &&& ov.into_second.target() == entry.patches@[ov.second as int].restriction.source()
}

/// The cocycle condition on one overlap: both ways from the overlap object into
/// the covered object are the same arrow.
pub open spec fn overlap_agrees<C: BaseCategory>(entry: CoverEntry<C>, j: int) -> bool {
    let ov = entry.overlaps@[j];
    ov.into_first.composite(&entry.patches@[ov.first as int].restriction)
        == ov.into_second.composite(&entry.patches@[ov.second as int].restriction)
}

/// The descent condition on one cover.
pub open spec fn entry_consistent<C: BaseCategory>(entry: CoverEntry<C>) -> bool {
    &&& forall|i: int| 0 <= i < entry.patches@.len() ==> #[trigger] restriction_placed(entry, i)
    &&& forall|j: int|
        0 <= j < entry.overlaps@.len() ==> #[trigger] overlap_anchored(entry, j) && overlap_agrees(
            entry,
            j,
        )
}

/// `e` names a real failure of the descent condition in `entry`, the entry at `k`.
pub open spec fn entry_witness<C: BaseCategory>(
    entry: CoverEntry<C>,
    k: int,
    e: StructuralInconsistency,
) -> bool {
    match e {
        StructuralInconsistency::MisplacedRestriction { cover, patch } => {
            &&& cover == k
            &&& patch < entry.patches@.len()
            &&& !restriction_placed(entry, patch as int)
        },
        StructuralInconsistency::DanglingOverlap { cover, overlap } => {
            &&& cover == k
            &&& overlap < entry.overlaps@.len()
            &&& !overlap_anchored(entry, overlap as int)
        },
        StructuralInconsistency::CocycleFailure { cover, first, second } => {
            &&& cover == k
            &&& exists|j: int|
                0 <= j < entry.overlaps@.len() && #[trigger] overlap_anchored(entry, j)
                    && !overlap_agrees(entry, j) && entry.overlaps@[j].first == first
                    && entry.overlaps@[j].second == second
        },
    }
}

/// Checks the descent condition on one cover, the entry at `k`.
fn check_entry<C: BaseCategory>(category: &C, entry: &CoverEntry<C>, k: usize) -> (r: Result<
    (),
    StructuralInconsistency,
>)
    ensures
        r is Ok <==> entry_consistent(*entry),
        r is Err ==> entry_witness(*entry, k as int, r->Err_0),
{
    let n = entry.patches.len();
    let mut i: usize = 0;
    while i < n
        invariant
            n == entry.patches@.len(),
            i <= n,
            forall|a: int| 0 <= a < i ==> #[trigger] restriction_placed(*entry, a),
        decreases n - i,
    {
        let p = &entry.patches[i];
        let from_patch = category.id(&p.object);
        let into_object = category.id(&entry.object);
        let starts = category.compose(&from_patch, &p.restriction).is_ok();
        let ends = category.compose(&p.restriction, &into_object).is_ok();
        if !(starts && ends) {
            assert(!restriction_placed(*entry, i as int));
            return Err(StructuralInconsistency::MisplacedRestriction { cover: k, patch: i });
        }
        i = i + 1;
    }
    let m = entry.overlaps.len();
    let mut j: usize = 0;
    while j < m
        invariant
            n == entry.patches@.len(),
            m == entry.overlaps@.len(),
            j <= m,
            forall|a: int| 0 <= a < n ==> #[trigger] restriction_placed(*entry, a),
            forall|a: int| 0 <= a < j ==> #[trigger] overlap_anchored(*entry, a),
            forall|a: int| 0 <= a < j ==> #[trigger] overlap_agrees(*entry, a),
        decreases m - j,
    {
        let ov = &entry.overlaps[j];
        if ov.first >= n || ov.second >= n {
            assert(!overlap_anchored(*entry, j as int));
            return Err(StructuralInconsistency::DanglingOverlap { cover: k, overlap: j });
        }
        let via_first = category.compose(&ov.into_first, &entry.patches[ov.first].restriction);
        let via_second = category.compose(&ov.into_second, &entry.patches[ov.second].restriction);
        match (via_first, via_second) {
            (Ok(a), Ok(b)) => {
                assert(overlap_anchored(*entry, j as int));
                if !category.same_hom(&a, &b) {
                    assert(overlap_anchored(*entry, j as int) && !overlap_agrees(*entry, j as int));
                    return Err(
                        StructuralInconsistency::CocycleFailure {
                            cover: k,
                            first: ov.first,
                            second: ov.second,
                        },
                    );
                }
                assert(overlap_agrees(*entry, j as int));
            },
            _ => {
                assert(!overlap_anchored(*entry, j as int));
                return Err(StructuralInconsistency::DanglingOverlap { cover: k, overlap: j });
            },
        }
        assert(overlap_anchored(*entry, j as int) && overlap_agrees(*entry, j as int));
        j = j + 1;
    }
    Ok(())
}

impl<C: BaseCategory, F: FieldFunctor<C>> View for GluingCondition<C, F> {
    type V = Seq<CoverEntry<C>>;

    closed spec fn view(&self) -> Seq<CoverEntry<C>> {
        self.entries@
    }
}

impl<C: BaseCategory, F: FieldFunctor<C>> GluingCondition<C, F> {
    /// No two entries cover the same object.
    pub open spec fn wf(&self) -> bool {
        forall|a: int, b: int|
            0 <= a < b < self@.len() ==> #[trigger] self@[a].object != #[trigger] self@[b].object
    }

    pub open spec fn has_entry(&self, obj: C::Obj) -> bool {
        exists|k: int| 0 <= k < self@.len() && #[trigger] self@[k].object == obj
    }

    /// The index of the entry for `obj`, when there is one.
    pub open spec fn entry_index(&self, obj: C::Obj) -> int {
        choose|k: int| 0 <= k < self@.len() && #[trigger] self@[k].object == obj
    }

    /// The cover of `obj`: its entry's patches, or none.
    pub open spec fn cover_of(&self, obj: C::Obj) -> Seq<Patch<C>> {
        if self.has_entry(obj) {
            self@[self.entry_index(obj)].patches@
        } else {
            Seq::empty()
        }
    }

    /// The descent condition on every cover.
    pub open spec fn descent_holds(&self) -> bool {
        forall|k: int| 0 <= k < self@.len() ==> #[trigger] entry_consistent(self@[k])
    }

    pub open spec fn witness(&self, e: StructuralInconsistency) -> bool {
        let k = match e {
            StructuralInconsistency::MisplacedRestriction { cover, .. } => cover,
            StructuralInconsistency::DanglingOverlap { cover, .. } => cover,
            StructuralInconsistency::CocycleFailure { cover, .. } => cover,
        };
        k < self@.len() && entry_witness(self@[k as int], k as int, e)
    }

    /// Gluing data with no covers.
    pub fn new() -> (r: Self)
        ensures
            r@ == Seq::<CoverEntry<C>>::empty(),
            r.wf(),
    {
        GluingCondition { entries: Vec::new(), functor: PhantomData }
    }

    /// The entries, in the order they were first set.
    pub fn entries(&self) -> (r: &Vec<CoverEntry<C>>)
        ensures
            r@ == self@,
    {
        &self.entries
    }

    /// The index of the entry for `obj`, if any.
    fn find(&self, category: &C, obj: &C::Obj) -> (r: Option<usize>)
        requires
            self.wf(),
        ensures
            r is None <==> !self.has_entry(*obj),
            r is Some ==> r->0 == self.entry_index(*obj) && self@[r->0 as int].object == *obj,
    {
        let mut k: usize = 0;
        while k < self.entries.len()
            invariant
                k <= self.entries@.len(),
                self.wf(),
                forall|a: int| 0 <= a < k ==> #[trigger] self@[a].object != *obj,
            decreases self.entries@.len() - k,
        {
            if category.same_object(&self.entries[k].object, obj) {
                proof {
                    let c = self.entry_index(*obj);
                    assert(self@[k as int].object == *obj);
                    assert(self@[c].object == *obj);
                    assert(c == k as int) by {
                        if c < k {
                        } else if c > k {
                            assert(self@[k as int].object != self@[c].object);
                        }
                    }
                }
                return Some(k);
            }
            k = k + 1;
        }
        None
    }

    /// Sets the cover of `object`, replacing the one it had or appending a new entry.
    pub fn set_cover(
        &mut self,
        category: &C,
        object: C::Obj,
        patches: Vec<Patch<C>>,
        overlaps: Vec<Overlap<C>>,
    )
        requires
            old(self).wf(),
        ensures
            final(self).wf(),
            old(self).has_entry(object) ==> final(self)@ == old(self)@.update(
                old(self).entry_index(object),
                (CoverEntry { object, patches, overlaps }),
            ),
            !old(self).has_entry(object) ==> final(self)@ == old(self)@.push(
                (CoverEntry { object, patches, overlaps }),
            ),
    {
        match self.find(category, &object) {
            Some(k) => {
                self.entries[k] = CoverEntry { object, patches, overlaps };
            },
            None => {
                self.entries.push(CoverEntry { object, patches, overlaps });
                proof {
                    assert forall|a: int, b: int| 0 <= a < b < self@.len() implies #[trigger] self@[a].object
                        != #[trigger] self@[b].object by {
                        if b == self@.len() - 1 {
                            assert(old(self)@[a].object == self@[a].object);
                        }
                    }
                }
            },
        }
    }
    /// The cover of `obj`, as the ordered sequence of its patches' objects.
    pub fn covers<'a>(&'a self, category: &C, obj: &C::Obj) -> (r: Vec<&'a C::Obj>)
        requires
            self.wf(),
        ensures
            r@.len() == self.cover_of(*obj).len(),
            forall|i: int| 0 <= i < r@.len() ==> *r@[i] == patch_objects(self.cover_of(*obj))[i],
    {
        let mut r: Vec<&C::Obj> = Vec::new();
        match self.find(category, obj) {
            Some(k) => {
                let patches = &self.entries[k].patches;
                let mut i: usize = 0;
                while i < patches.len()
                    invariant
                        i <= patches@.len(),
                        patches@ == self.cover_of(*obj),
                        r@.len() == i,
                        forall|a: int| 0 <= a < i ==> *r@[a] == patches@[a].object,
                    decreases patches@.len() - i,
                {
                    r.push(&patches[i].object);
                    i = i + 1;
                }
            },
            None => {},
        }
        r
    }

    /// The `index`-th patch of the cover of `obj`.
    pub fn local_patch<'a>(&'a self, category: &C, obj: &C::Obj, index: usize) -> (r: Result<
        &'a C::Obj,
        LawViolation,
    >)
        requires
            self.wf(),
        ensures
            index < self.cover_of(*obj).len() ==> r is Ok && *r->Ok_0 == patch_objects(
                self.cover_of(*obj),
            )[index as int],
            index >= self.cover_of(*obj).len() ==> r == Err::<&C::Obj, LawViolation>(
                LawViolation::CoverIndexOutOfRange,
            ),
    {
        match self.find(category, obj) {
            Some(k) => {
                if index < self.entries[k].patches.len() {
                    Ok(&self.entries[k].patches[index].object)
                } else {
                    Err(LawViolation::CoverIndexOutOfRange)
                }
            },
            None => Err(LawViolation::CoverIndexOutOfRange),
        }
    }

    /// The restriction of the `index`-th patch of the cover of `obj`: the arrow
    /// from that patch into `obj`.
    pub fn restriction<'a>(&'a self, category: &C, obj: &C::Obj, index: usize) -> (r: Result<
        &'a C::Hom,
        LawViolation,
    >)
        requires
            self.wf(),
        ensures
            index < self.cover_of(*obj).len() ==> r is Ok && *r->Ok_0 == self.cover_of(
                *obj,
            )[index as int].restriction,
            index >= self.cover_of(*obj).len() ==> r == Err::<&C::Hom, LawViolation>(
                LawViolation::CoverIndexOutOfRange,
            ),
    {
        match self.find(category, obj) {
            Some(k) => {
                if index < self.entries[k].patches.len() {
                    Ok(&self.entries[k].patches[index].restriction)
                } else {
                    Err(LawViolation::CoverIndexOutOfRange)
                }
            },
            None => Err(LawViolation::CoverIndexOutOfRange),
        }
    }
    /// The explicit validation pass: checks the descent condition on every
    /// cover, in order, and reports the first failure found.
    pub fn check_descent(&self, category: &C) -> (r: Result<(), StructuralInconsistency>)
        ensures
            r is Ok <==> self.descent_holds(),
            r is Err ==> self.witness(r->Err_0),
    {
        let mut k: usize = 0;
        while k < self.entries.len()
            invariant
                k <= self.entries@.len(),
                forall|a: int| 0 <= a < k ==> #[trigger] entry_consistent(self@[a]),
            decreases self.entries@.len() - k,
        {
            match check_entry(category, &self.entries[k], k) {
                Ok(()) => {},
                Err(e) => {
                    assert(!entry_consistent(self@[k as int]));
                    return Err(e);
                },
            }
            k = k + 1;
        }
        Ok(())
    }
}

/// Cover indexing: the `i`-th entry of `covers(obj)` is what `local_patch(obj, i)`
/// returns, and `local_patch` succeeds exactly below the length of `covers(obj)`.
pub proof fn lemma_cover_indexing<C: BaseCategory, F: FieldFunctor<C>>(
    g: &GluingCondition<C, F>,
    obj: C::Obj,
    i: int,
)
    ensures
        patch_objects(g.cover_of(obj)).len() == g.cover_of(obj).len(),
        0 <= i < g.cover_of(obj).len() ==> patch_objects(g.cover_of(obj))[i] == g.cover_of(
            obj,
        )[i].object,
{
}

} // verus!
