//! Capture assignment: walks a rule's raw pattern tree, replaces every
//! capture marker by a final slot index, and derives how many values each
//! slot can receive (its cardinality), reconciling diverging alternatives.
use vstd::prelude::*;

use crate::grammar::{lemma_pats_view, pat_view, pats_view, CaptureInfo, Pat, SpecCapInfo, SpecPat};

verus! {

/// How many values a capture slot holds after a successful parse.
#[derive(Debug, Clone, Copy, PartialEq, Eq, Structural)]
pub enum CaptureType {
    /// Exactly one value, unconditionally.
    Single,
    /// Zero or one value.
    Optional,
    /// Zero or more values.
    Multiple,
}

/// How many times the construct enclosing a subtree may cause it to be
/// evaluated during one parse of the rule.
#[derive(Debug, Clone, Copy, PartialEq, Eq, Structural)]
pub enum CaptureContext {
    /// Evaluated exactly once (under a sequence or at top level).
    Free,
    /// Evaluated zero or one time.
    Optional,
    /// Evaluated any number of times.
    Repetition,
}

/// A structural defect of a rule's capture markers, found during assignment.
#[derive(Debug, Clone, Copy, PartialEq, Eq, Structural)]
pub enum CaptureError {
    /// A shared group number skips over a group that was never allocated.
    SharedOutOfOrder,
    /// The pattern already carries assigned capture slots.
    AlreadyAssigned,
    /// A capture marker directly wraps another capture marker.
    NestedCapture,
    /// A capture marker wraps a break-on-token pattern, which records nothing.
    CaptureOfBreak,
    /// An alternation with no alternatives cannot be assigned.
    EmptyAlternation,
}

/// A rule body with assigned capture slots, and the cardinality of each slot.
#[derive(Debug)]
pub struct ParserRule {
    /// The pattern, with every capture marker replaced by a slot index.
    pub pat: Pat,
    /// Slot `i` of the rule's matches has cardinality `captures[i]`.
    pub captures: Vec<CaptureType>,
}

/// Ghost form of the assignment state: the slots allocated to fresh
/// captures, the slot of each shared group, and every slot's cardinality.
#[verifier::ext_equal]
pub struct SpecCapState {
    pub singles: Seq<usize>,
    pub shareds: Seq<usize>,
    pub types: Seq<CaptureType>,
}

/// The running state of capture assignment over one rule.
struct CaptureState {
    /// The slot index allocated for each fresh capture marker, in order.
    single_ids: Vec<usize>,
    /// The slot index allocated for shared group `g`, at position `g`.
    shared_ids: Vec<usize>,
    /// The cardinality of every allocated slot.
    capture_types: Vec<CaptureType>,
}

impl View for CaptureState {
    type V = SpecCapState;

    closed spec fn view(&self) -> SpecCapState {
        SpecCapState { singles: self.single_ids@, shareds: self.shared_ids@, types: self.capture_types@ }
    }
}

/// Every recorded slot index points into the slot-type list.
pub open spec fn state_wf(st: SpecCapState) -> bool {
    &&& forall|k: int| 0 <= k < st.singles.len() ==> (#[trigger] st.singles[k]) < st.types.len()
    &&& forall|k: int| 0 <= k < st.shareds.len() ==> (#[trigger] st.shareds[k]) < st.types.len()
}

/// The cardinality a context dictates for a capture evaluated under it.
pub open spec fn spec_ctx_type(ctx: CaptureContext) -> CaptureType {
    match ctx {
        CaptureContext::Free => CaptureType::Single,
        CaptureContext::Optional => CaptureType::Optional,
        CaptureContext::Repetition => CaptureType::Multiple,
    }
}

/// Combines the ambient context with the context derived from a capture's
/// own payload: repetition always wins, and an optional evaluation of a
/// repeating payload still repeats.
pub open spec fn spec_ctx_combine(outer: CaptureContext, inner: CaptureContext) -> CaptureContext {
    match outer {
        CaptureContext::Repetition => CaptureContext::Repetition,
        CaptureContext::Optional => match inner {
            CaptureContext::Repetition => CaptureContext::Repetition,
            _ => CaptureContext::Optional,
        },
        CaptureContext::Free => inner,
    }
}

/// Whether a pattern is a single token or rule reference.
pub open spec fn spec_is_single(p: SpecPat) -> bool {
    match p {
        SpecPat::Token(_) => true,
        SpecPat::Rule(_) => true,
        _ => false,
    }
}

/// Whether every pattern of the list is a single token or rule reference.
pub open spec fn spec_all_single(ps: Seq<SpecPat>) -> bool {
    forall|i: int| 0 <= i < ps.len() ==> spec_is_single(#[trigger] ps[i])
}

/// The context a capture's payload imposes on the capture, independent of
/// the ambient context; or the structural defect that makes the payload
/// uncapturable.
pub open spec fn spec_inner_context(p: SpecPat) -> Result<CaptureContext, CaptureError> {
    match p {
        SpecPat::Token(_) => Ok(CaptureContext::Free),
        SpecPat::Rule(_) => Ok(CaptureContext::Free),
        SpecPat::Sequence(_) => Ok(CaptureContext::Repetition),
        SpecPat::ZeroPlus(_) => Ok(CaptureContext::Repetition),
        SpecPat::OnePlus(_) => Ok(CaptureContext::Repetition),
        SpecPat::Loop(_) => Ok(CaptureContext::Repetition),
        SpecPat::Cap(_, _) => Err(CaptureError::NestedCapture),
        SpecPat::Opt(b) => Ok(
            if spec_is_single(*b) {
                CaptureContext::Optional
            } else {
                CaptureContext::Repetition
            },
        ),
        SpecPat::AnyOf(ps) => Ok(
            if spec_all_single(ps) {
                CaptureContext::Free
            } else {
                CaptureContext::Repetition
            },
        ),
        SpecPat::BreakOnToken(_) => Err(CaptureError::CaptureOfBreak),
    }
}

/// Allocates or upgrades the slot for one capture marker: a fresh marker
/// gets a new slot of the given cardinality; a shared group gets a new slot
/// on first sight, and its existing slot is upgraded to `Multiple` when the
/// group is seen again.  A group number beyond the next unallocated group is
/// a defect.
pub open spec fn spec_state_assign(
    st: SpecCapState,
    group: Option<usize>,
    ty: CaptureType,
) -> Result<(SpecCapState, usize), CaptureError> {
    match group {
        Option::Some(g) => {
            if g as int > st.shareds.len() {
                Err(CaptureError::SharedOutOfOrder)
            } else if g as int == st.shareds.len() {
                let id = st.types.len() as usize;
                Ok((
                    SpecCapState {
                        singles: st.singles,
                        shareds: st.shareds.push(id),
                        types: st.types.push(ty),
                    },
                    id,
                ))
            } else {
                let id = st.shareds[g as int];
                Ok((
                    SpecCapState {
                        singles: st.singles,
                        shareds: st.shareds,
                        types: st.types.update(id as int, CaptureType::Multiple),
                    },
                    id,
                ))
            }
        },
        Option::None => {
            let id = st.types.len() as usize;
            Ok((
                SpecCapState {
                    singles: st.singles.push(id),
                    shareds: st.shareds,
                    types: st.types.push(ty),
                },
                id,
            ))
        },
    }
}

/// The more permissive of a slot's current cardinality and the cardinality
/// another alternative gives it: `Multiple` dominates, and `Optional`
/// dominates `Single`.
pub open spec fn spec_widen(a: CaptureType, b: CaptureType) -> CaptureType {
    match b {
        CaptureType::Optional => if a == CaptureType::Single {
            CaptureType::Optional
        } else {
            a
        },
        CaptureType::Multiple => CaptureType::Multiple,
        CaptureType::Single => a,
    }
}

/// The cardinality of a slot that only a later alternative produces:
/// `Optional` unless the alternative itself makes it `Multiple`.
pub open spec fn spec_extra(b: CaptureType) -> CaptureType {
    match b {
        CaptureType::Multiple => CaptureType::Multiple,
        _ => CaptureType::Optional,
    }
}

/// Widens the slots paired between the accumulated list `ids` and a
/// branch's list `oids`, position by position, from `k` on.
pub open spec fn spec_combine_widen(
    ids: Seq<usize>,
    types: Seq<CaptureType>,
    oids: Seq<usize>,
    otypes: Seq<CaptureType>,
    k: int,
) -> Seq<CaptureType>
    decreases (if ids.len() <= oids.len() { ids.len() as int } else { oids.len() as int }) - k,
{
    let n = if ids.len() <= oids.len() { ids.len() as int } else { oids.len() as int };
    if k < 0 || k >= n {
        types
    } else {
        let slot = ids[k] as int;
        let oslot = oids[k] as int;
        spec_combine_widen(ids, types.update(slot, spec_widen(types[slot], otypes[oslot])), oids, otypes, k + 1)
    }
}

/// Appends slots that only the branch allocated: each gets the next free
/// slot number and the cardinality `spec_extra` dictates.
pub open spec fn spec_combine_append(
    ids: Seq<usize>,
    types: Seq<CaptureType>,
    oids: Seq<usize>,
    otypes: Seq<CaptureType>,
    k: int,
) -> (Seq<usize>, Seq<CaptureType>)
    decreases oids.len() - k,
{
    if k < 0 || k >= oids.len() {
        (ids, types)
    } else {
        let id = types.len() as usize;
        spec_combine_append(ids.push(id), types.push(spec_extra(otypes[oids[k] as int])), oids, otypes, k + 1)
    }
}

/// Downgrades `Single` slots that the branch does not produce to `Optional`,
/// for positions `k` on.
pub open spec fn spec_combine_downgrade(ids: Seq<usize>, types: Seq<CaptureType>, k: int) -> Seq<CaptureType>
    decreases ids.len() - k,
{
    if k < 0 || k >= ids.len() {
        types
    } else {
        let slot = ids[k] as int;
        let t2 = if types[slot] == CaptureType::Single {
            types.update(slot, CaptureType::Optional)
        } else {
            types
        };
        spec_combine_downgrade(ids, t2, k + 1)
    }
}

/// Reconciles one alternative's capture list into the accumulated one:
/// paired slots widen, extra branch slots are appended, and slots the
/// branch misses lose their `Single` guarantee.
pub open spec fn spec_combine(
    ids: Seq<usize>,
    types: Seq<CaptureType>,
    oids: Seq<usize>,
    otypes: Seq<CaptureType>,
) -> (Seq<usize>, Seq<CaptureType>) {
    let t1 = spec_combine_widen(ids, types, oids, otypes, 0);
    if ids.len() < oids.len() {
        spec_combine_append(ids, t1, oids, otypes, ids.len() as int)
    } else {
        (ids, spec_combine_downgrade(ids, t1, oids.len() as int))
    }
}

/// Extends `map` so that the branch's slot `bad_ids[k]` points at the
/// accumulated slot `good_ids[k]`, for every paired position.
pub open spec fn spec_build_map(map: Seq<usize>, bad_ids: Seq<usize>, good_ids: Seq<usize>, k: int) -> Seq<usize>
    decreases (if bad_ids.len() <= good_ids.len() { bad_ids.len() as int } else { good_ids.len() as int }) - k,
{
    let n = if bad_ids.len() <= good_ids.len() { bad_ids.len() as int } else { good_ids.len() as int };
    if k < 0 || k >= n {
        map
    } else {
        spec_build_map(map.update(bad_ids[k] as int, good_ids[k]), bad_ids, good_ids, k + 1)
    }
}

/// The slot renumbering that carries a branch's slot indices over to the
/// reconciled numbering: fresh captures pair up in allocation order, shared
/// groups pair up by group number.
pub open spec fn spec_map_for(good: SpecCapState, bad: SpecCapState) -> Seq<usize> {
    let m0 = Seq::new(bad.types.len(), |i: int| 0usize);
    let m1 = spec_build_map(m0, bad.singles, good.singles, 0);
    spec_build_map(m1, bad.shareds, good.shareds, 0)
}

/// Rewrites every assigned slot index in the pattern through the map;
/// indices outside the map are left as they are.
pub open spec fn spec_reorder(p: SpecPat, map: Seq<usize>) -> SpecPat
    decreases p,
{
    match p {
        SpecPat::Rule(_) => p,
        SpecPat::Token(_) => p,
        SpecPat::BreakOnToken(_) => p,
        SpecPat::Sequence(ps) => SpecPat::Sequence(spec_reorder_list(ps, map)),
        SpecPat::AnyOf(ps) => SpecPat::AnyOf(spec_reorder_list(ps, map)),
        SpecPat::Cap(c, b) => {
            let c2 = match c {
                SpecCapInfo::Assigned(i) => if (i as int) < map.len() {
                    SpecCapInfo::Assigned(map[i as int])
                } else {
                    c
                },
                _ => c,
            };
            SpecPat::Cap(c2, Box::new(spec_reorder(*b, map)))
        },
        SpecPat::Opt(b) => SpecPat::Opt(Box::new(spec_reorder(*b, map))),
        SpecPat::ZeroPlus(b) => SpecPat::ZeroPlus(Box::new(spec_reorder(*b, map))),
        SpecPat::OnePlus(b) => SpecPat::OnePlus(Box::new(spec_reorder(*b, map))),
        SpecPat::Loop(b) => SpecPat::Loop(Box::new(spec_reorder(*b, map))),
    }
}

/// Rewrites every pattern of the list through the map.
pub open spec fn spec_reorder_list(ps: Seq<SpecPat>, map: Seq<usize>) -> Seq<SpecPat>
    decreases ps,
{
    if ps.len() == 0 {
        Seq::empty()
    } else {
        seq![spec_reorder(ps[0], map)] + spec_reorder_list(ps.drop_first(), map)
    }
}

/// `spec_reorder_list` maps each pattern of the list through `spec_reorder`.
pub proof fn lemma_reorder_list(ps: Seq<SpecPat>, map: Seq<usize>)
    ensures
        spec_reorder_list(ps, map).len() == ps.len(),
        forall|i: int| 0 <= i < ps.len() ==> spec_reorder_list(ps, map)[i] == spec_reorder(ps[i], map),
    decreases ps.len(),
{
    if ps.len() > 0 {
        lemma_reorder_list(ps.drop_first(), map);
        assert forall|i: int| 0 <= i < ps.len() implies spec_reorder_list(ps, map)[i] == spec_reorder(
            ps[i],
            map,
        ) by {
            if i > 0 {
                assert(spec_reorder_list(ps, map)[i] == spec_reorder_list(ps.drop_first(), map)[i - 1]);
                assert(ps.drop_first()[i - 1] == ps[i]);
            }
        }
    }
}

/// Assigns capture slots through one pattern under the given context,
/// starting from the given state; the result is the rewritten pattern and
/// the state after it, or the structural defect found.
pub open spec fn spec_assign_pat(
    p: SpecPat,
    ctx: CaptureContext,
    st: SpecCapState,
) -> Result<(SpecPat, SpecCapState), CaptureError>
    decreases p, 0int,
{
    match p {
        SpecPat::Rule(_) => Ok((p, st)),
        SpecPat::Token(_) => Ok((p, st)),
        SpecPat::BreakOnToken(_) => Ok((p, st)),
        SpecPat::Sequence(ps) => match spec_assign_list(ps, ctx, st, 0) {
            Ok((qs, st2)) => Ok((SpecPat::Sequence(qs), st2)),
            Err(e) => Err(e),
        },
        SpecPat::Cap(marker, b) => {
            let group = match marker {
                SpecCapInfo::Unnamed => Ok(Option::<usize>::None),
                SpecCapInfo::Shared(g) => Ok(Option::Some(g)),
                SpecCapInfo::Assigned(_) => Err(CaptureError::AlreadyAssigned),
            };
            match group {
                Err(e) => Err(e),
                Ok(group) => match spec_inner_context(*b) {
                    Err(e) => Err(e),
                    Ok(ic) => {
                        let actual = spec_ctx_combine(ctx, ic);
                        match spec_state_assign(st, group, spec_ctx_type(actual)) {
                            Err(e) => Err(e),
                            Ok((st1, id)) => match spec_assign_pat(*b, ctx, st1) {
                                Err(e) => Err(e),
                                Ok((q, st2)) => Ok(
                                    (SpecPat::Cap(SpecCapInfo::Assigned(id), Box::new(q)), st2),
                                ),
                            },
                        }
                    },
                },
            }
        },
        SpecPat::Opt(b) => {
            let c2 = if ctx == CaptureContext::Repetition {
                CaptureContext::Repetition
            } else {
                CaptureContext::Optional
            };
            match spec_assign_pat(*b, c2, st) {
                Ok((q, st2)) => Ok((SpecPat::Opt(Box::new(q)), st2)),
                Err(e) => Err(e),
            }
        },
        SpecPat::ZeroPlus(b) => match spec_assign_pat(*b, CaptureContext::Repetition, st) {
            Ok((q, st2)) => Ok((SpecPat::ZeroPlus(Box::new(q)), st2)),
            Err(e) => Err(e),
        },
        SpecPat::OnePlus(b) => match spec_assign_pat(*b, CaptureContext::Repetition, st) {
            Ok((q, st2)) => Ok((SpecPat::OnePlus(Box::new(q)), st2)),
            Err(e) => Err(e),
        },
        SpecPat::Loop(b) => match spec_assign_pat(*b, CaptureContext::Repetition, st) {
            Ok((q, st2)) => Ok((SpecPat::Loop(Box::new(q)), st2)),
            Err(e) => Err(e),
        },
        SpecPat::AnyOf(ps) => {
            if ps.len() == 0 {
                Err(CaptureError::EmptyAlternation)
            } else {
                match spec_assign_pat(ps[0], ctx, st) {
                    Err(e) => Err(e),
                    Ok((first, st1)) => match spec_assign_branches(ps, ctx, st, st1, seq![first], 1) {
                        Err(e) => Err(e),
                        Ok((outs, stn)) => Ok((SpecPat::AnyOf(outs), stn)),
                    },
                }
            }
        },
    }
}

/// Assigns capture slots through the patterns of a sequence, from index `k`
/// on, threading the state left to right.
pub open spec fn spec_assign_list(
    ps: Seq<SpecPat>,
    ctx: CaptureContext,
    st: SpecCapState,
    k: int,
) -> Result<(Seq<SpecPat>, SpecCapState), CaptureError>
    decreases ps, ps.len() - k,
{
    if k < 0 || k >= ps.len() {
        Ok((Seq::empty(), st))
    } else {
        match spec_assign_pat(ps[k], ctx, st) {
            Err(e) => Err(e),
            Ok((q, st1)) => match spec_assign_list(ps, ctx, st1, k + 1) {
                Err(e) => Err(e),
                Ok((qs, st2)) => Ok((seq![q] + qs, st2)),
            },
        }
    }
}

/// Assigns the alternatives of an alternation after the first: each starts
/// from the state before the alternation (`pre`), is reconciled into the
/// accumulated state, and is renumbered to the reconciled slots.
pub open spec fn spec_assign_branches(
    ps: Seq<SpecPat>,
    ctx: CaptureContext,
    pre: SpecCapState,
    acc: SpecCapState,
    outs: Seq<SpecPat>,
    k: int,
) -> Result<(Seq<SpecPat>, SpecCapState), CaptureError>
    decreases ps, ps.len() - k,
{
    if k < 1 || k >= ps.len() {
        Ok((outs, acc))
    } else {
        match spec_assign_pat(ps[k], ctx, pre) {
            Err(e) => Err(e),
            Ok((bq, bst)) => {
                let (s1, t1) = spec_combine(acc.singles, acc.types, bst.singles, bst.types);
                let (s2, t2) = spec_combine(acc.shareds, t1, bst.shareds, bst.types);
                let acc2 = SpecCapState { singles: s1, shareds: s2, types: t2 };
                let map = spec_map_for(acc2, bst);
                let mapped = spec_reorder(bq, map);
                spec_assign_branches(ps, ctx, pre, acc2, outs.push(mapped), k + 1)
            },
        }
    }
}

/// The whole assignment of one rule body: slots assigned from a fresh
/// state under a free context.
pub open spec fn spec_find_and_assign(p: SpecPat) -> Result<(SpecPat, Seq<CaptureType>), CaptureError> {
    let st0 = SpecCapState { singles: Seq::empty(), shareds: Seq::empty(), types: Seq::empty() };
    match spec_assign_pat(p, CaptureContext::Free, st0) {
        Ok((q, st)) => Ok((q, st.types)),
        Err(e) => Err(e),
    }
}

} // verus!

verus! {

impl CaptureState {
    /// A fresh state with no slots allocated.
    fn empty() -> (r: CaptureState)
        ensures
            r@ == (SpecCapState { singles: Seq::<usize>::empty(), shareds: Seq::<usize>::empty(), types: Seq::<CaptureType>::empty() }),
            state_wf(r@),
    {
        let r = CaptureState { single_ids: Vec::new(), shared_ids: Vec::new(), capture_types: Vec::new() };
        proof {
            assert(r@.singles =~= Seq::<usize>::empty());
            assert(r@.shareds =~= Seq::<usize>::empty());
            assert(r@.types =~= Seq::<CaptureType>::empty());
        }
        r
    }

    /// Allocates or upgrades the slot for one capture marker, as
    /// `spec_state_assign` describes.
    fn assign(&mut self, group: Option<usize>, ty: CaptureType) -> (r: Result<usize, CaptureError>)
        requires
            state_wf(old(self)@),
        ensures
            ({
                let s = spec_state_assign(old(self)@, group, ty);
                match r {
                    Ok(id) => s == Ok::<(SpecCapState, usize), CaptureError>((final(self)@, id))
                        && state_wf(final(self)@),
                    Err(e) => s == Err::<(SpecCapState, usize), CaptureError>(e) && final(self)@ == old(self)@,
                }
            }),
    {
        match group {
            Option::Some(g) => {
                if g > self.shared_ids.len() {
                    Err(CaptureError::SharedOutOfOrder)
                } else if g == self.shared_ids.len() {
                    let id = self.capture_types.len();
                    self.shared_ids.push(id);
                    self.capture_types.push(ty);
                    Ok(id)
                } else {
                    let id = self.shared_ids[g];
                    self.capture_types[id] = CaptureType::Multiple;
                    Ok(id)
                }
            },
            Option::None => {
                let id = self.capture_types.len();
                self.single_ids.push(id);
                self.capture_types.push(ty);
                Ok(id)
            },
        }
    }
}

fn copy_ids(v: &Vec<usize>) -> (r: Vec<usize>)
    ensures
        r@ == v@,
{
    let mut r: Vec<usize> = Vec::new();
    let mut i: usize = 0;
    while i < v.len()
        invariant
            i <= v@.len(),
            r@ == v@.subrange(0, i as int),
        decreases v@.len() - i,
    {
        r.push(v[i]);
        assert(r@ =~= v@.subrange(0, i + 1 as int));
        i = i + 1;
    }
    assert(r@ =~= v@);
    r
}

fn copy_types(v: &Vec<CaptureType>) -> (r: Vec<CaptureType>)
    ensures
        r@ == v@,
{
    let mut r: Vec<CaptureType> = Vec::new();
    let mut i: usize = 0;
    while i < v.len()
        invariant
            i <= v@.len(),
            r@ == v@.subrange(0, i as int),
        decreases v@.len() - i,
    {
        r.push(v[i]);
        assert(r@ =~= v@.subrange(0, i + 1 as int));
        i = i + 1;
    }
    assert(r@ =~= v@);
    r
}

fn state_duplicate(st: &CaptureState) -> (r: CaptureState)
    ensures
        r@ == st@,
{
    CaptureState {
        single_ids: copy_ids(&st.single_ids),
        shared_ids: copy_ids(&st.shared_ids),
        capture_types: copy_types(&st.capture_types),
    }
}

/// The cardinality a context dictates for a capture evaluated under it.
fn ctx_type(ctx: CaptureContext) -> (r: CaptureType)
    ensures
        r == spec_ctx_type(ctx),
{
    match ctx {
        CaptureContext::Free => CaptureType::Single,
        CaptureContext::Optional => CaptureType::Optional,
        CaptureContext::Repetition => CaptureType::Multiple,
    }
}

/// Combines the ambient context with a capture payload's own context.
fn ctx_combine(outer: CaptureContext, inner: CaptureContext) -> (r: CaptureContext)
    ensures
        r == spec_ctx_combine(outer, inner),
{
    match outer {
        CaptureContext::Repetition => CaptureContext::Repetition,
        CaptureContext::Optional => match inner {
            CaptureContext::Repetition => CaptureContext::Repetition,
            _ => CaptureContext::Optional,
        },
        CaptureContext::Free => inner,
    }
}

fn widen(a: CaptureType, b: CaptureType) -> (r: CaptureType)
    ensures
        r == spec_widen(a, b),
{
    match b {
        CaptureType::Optional => if a == CaptureType::Single {
            CaptureType::Optional
        } else {
            a
        },
        CaptureType::Multiple => CaptureType::Multiple,
        CaptureType::Single => a,
    }
}

fn extra(b: CaptureType) -> (r: CaptureType)
    ensures
        r == spec_extra(b),
{
    match b {
        CaptureType::Multiple => CaptureType::Multiple,
        _ => CaptureType::Optional,
    }
}

fn combine_widen(
    ids: &Vec<usize>,
    types: Vec<CaptureType>,
    oids: &Vec<usize>,
    otypes: &Vec<CaptureType>,
    k: usize,
) -> (r: Vec<CaptureType>)
    requires
        forall|j: int| 0 <= j < ids@.len() ==> (#[trigger] ids@[j]) < types@.len(),
        forall|j: int| 0 <= j < oids@.len() ==> (#[trigger] oids@[j]) < otypes@.len(),
    ensures
        r@ == spec_combine_widen(ids@, types@, oids@, otypes@, k as int),
        r@.len() == types@.len(),
    decreases ids@.len() + oids@.len() - k,
{
    let n = if ids.len() <= oids.len() { ids.len() } else { oids.len() };
    if k >= n {
        types
    } else {
        let slot = ids[k];
        let oslot = oids[k];
        let w = widen(types[slot], otypes[oslot]);
        let mut types = types;
        types[slot] = w;
        combine_widen(ids, types, oids, otypes, k + 1)
    }
}

fn combine_append(
    ids: Vec<usize>,
    types: Vec<CaptureType>,
    oids: &Vec<usize>,
    otypes: &Vec<CaptureType>,
    k: usize,
) -> (r: (Vec<usize>, Vec<CaptureType>))
    requires
        forall|j: int| 0 <= j < ids@.len() ==> (#[trigger] ids@[j]) < types@.len(),
        forall|j: int| 0 <= j < oids@.len() ==> (#[trigger] oids@[j]) < otypes@.len(),
    ensures
        (r.0@, r.1@) == spec_combine_append(ids@, types@, oids@, otypes@, k as int),
        r.1@.len() >= types@.len(),
        forall|j: int| 0 <= j < r.0@.len() ==> (#[trigger] r.0@[j]) < r.1@.len(),
    decreases oids@.len() - k,
{
    if k >= oids.len() {
        (ids, types)
    } else {
        let id = types.len();
        let mut ids = ids;
        let mut types = types;
        ids.push(id);
        types.push(extra(otypes[oids[k]]));
        combine_append(ids, types, oids, otypes, k + 1)
    }
}

fn combine_downgrade(ids: &Vec<usize>, types: Vec<CaptureType>, k: usize) -> (r: Vec<CaptureType>)
    requires
        forall|j: int| 0 <= j < ids@.len() ==> (#[trigger] ids@[j]) < types@.len(),
    ensures
        r@ == spec_combine_downgrade(ids@, types@, k as int),
        r@.len() == types@.len(),
    decreases ids@.len() - k,
{
    if k >= ids.len() {
        types
    } else {
        let slot = ids[k];
        let mut types = types;
        if types[slot] == CaptureType::Single {
            types[slot] = CaptureType::Optional;
        }
        combine_downgrade(ids, types, k + 1)
    }
}

/// Reconciles one alternative's capture list into the accumulated one, as
/// `spec_combine` describes.
fn combine_caps(
    ids: Vec<usize>,
    types: Vec<CaptureType>,
    oids: &Vec<usize>,
    otypes: &Vec<CaptureType>,
) -> (r: (Vec<usize>, Vec<CaptureType>))
    requires
        forall|j: int| 0 <= j < ids@.len() ==> (#[trigger] ids@[j]) < types@.len(),
        forall|j: int| 0 <= j < oids@.len() ==> (#[trigger] oids@[j]) < otypes@.len(),
    ensures
        (r.0@, r.1@) == spec_combine(ids@, types@, oids@, otypes@),
        r.1@.len() >= types@.len(),
        forall|j: int| 0 <= j < r.0@.len() ==> (#[trigger] r.0@[j]) < r.1@.len(),
{
    let n1 = ids.len();
    let n2 = oids.len();
    let t1 = combine_widen(&ids, types, oids, otypes, 0);
    if n1 < n2 {
        combine_append(ids, t1, oids, otypes, n1)
    } else {
        let t2 = combine_downgrade(&ids, t1, n2);
        (ids, t2)
    }
}

fn build_map_step(map: Vec<usize>, bad_ids: &Vec<usize>, good_ids: &Vec<usize>, k: usize) -> (r: Vec<usize>)
    requires
        forall|j: int| 0 <= j < bad_ids@.len() ==> (#[trigger] bad_ids@[j]) < map@.len(),
    ensures
        r@ == spec_build_map(map@, bad_ids@, good_ids@, k as int),
        r@.len() == map@.len(),
    decreases bad_ids@.len() + good_ids@.len() - k,
{
    let n = if bad_ids.len() <= good_ids.len() { bad_ids.len() } else { good_ids.len() };
    if k >= n {
        map
    } else {
        let mut map = map;
        let slot = bad_ids[k];
        map[slot] = good_ids[k];
        build_map_step(map, bad_ids, good_ids, k + 1)
    }
}

/// The slot renumbering from a branch's numbering to the reconciled one,
/// as `spec_map_for` describes.
fn build_map_for(good: &CaptureState, bad: &CaptureState) -> (r: Vec<usize>)
    requires
        state_wf(bad@),
    ensures
        r@ == spec_map_for(good@, bad@),
{
    let n = bad.capture_types.len();
    let mut m0: Vec<usize> = Vec::new();
    let mut i: usize = 0;
    while i < n
        invariant
            i <= n,
            m0@ =~= Seq::new(i as nat, |j: int| 0usize),
        decreases n - i,
    {
        m0.push(0);
        assert(m0@ =~= Seq::new((i + 1) as nat, |j: int| 0usize));
        i = i + 1;
    }
    assert(m0@ =~= Seq::new(bad@.types.len(), |j: int| 0usize));
    assert(m0@.len() == bad@.types.len());
    assert(bad@.singles == bad.single_ids@);
    assert(bad@.shareds == bad.shared_ids@);
    assert(forall|j: int| 0 <= j < bad@.singles.len() ==> (#[trigger] bad@.singles[j]) < m0@.len());
    let m1 = build_map_step(m0, &bad.single_ids, &good.single_ids, 0);
    assert(forall|j: int| 0 <= j < bad@.shareds.len() ==> (#[trigger] bad@.shareds[j]) < m1@.len());
    build_map_step(m1, &bad.shared_ids, &good.shared_ids, 0)
}

/// Rewrites every assigned slot index in the pattern through the map, as
/// `spec_reorder` describes.
fn reorder_pat(p: &Pat, map: &Vec<usize>) -> (r: Pat)
    ensures
        r@ == spec_reorder(p@, map@),
    decreases *p,
{
    match p {
        Pat::Rule(name) => Pat::Rule(name.clone()),
        Pat::Token(t) => Pat::Token(t.duplicate()),
        Pat::BreakOnToken(t) => Pat::BreakOnToken(t.duplicate()),
        Pat::Sequence(ps) => {
            let rs = reorder_list(ps, map);
            proof {
                lemma_pats_view(ps@);
                lemma_pats_view(rs@);
                lemma_reorder_list(pats_view(ps@), map@);
                assert(pats_view(rs@) =~= spec_reorder_list(pats_view(ps@), map@));
            }
            Pat::Sequence(rs)
        },
        Pat::AnyOf(ps) => {
            let rs = reorder_list(ps, map);
            proof {
                lemma_pats_view(ps@);
                lemma_pats_view(rs@);
                lemma_reorder_list(pats_view(ps@), map@);
                assert(pats_view(rs@) =~= spec_reorder_list(pats_view(ps@), map@));
            }
            Pat::AnyOf(rs)
        },
        Pat::Cap(c, b) => {
            let c2 = match c {
                CaptureInfo::Assigned(i) => if *i < map.len() {
                    CaptureInfo::Assigned(map[*i])
                } else {
                    *c
                },
                _ => *c,
            };
            Pat::Cap(c2, Box::new(reorder_pat(b, map)))
        },
        Pat::Opt(b) => Pat::Opt(Box::new(reorder_pat(b, map))),
        Pat::ZeroPlus(b) => Pat::ZeroPlus(Box::new(reorder_pat(b, map))),
        Pat::OnePlus(b) => Pat::OnePlus(Box::new(reorder_pat(b, map))),
        Pat::Loop(b) => Pat::Loop(Box::new(reorder_pat(b, map))),
    }
}

fn reorder_list(ps: &Vec<Pat>, map: &Vec<usize>) -> (r: Vec<Pat>)
    ensures
        r@.len() == ps@.len(),
        forall|i: int| 0 <= i < ps@.len() ==> (#[trigger] r@[i])@ == spec_reorder(ps@[i]@, map@),
    decreases *ps,
{
    let mut r: Vec<Pat> = Vec::new();
    let mut i: usize = 0;
    while i < ps.len()
        invariant
            i <= ps@.len(),
            r@.len() == i,
            forall|j: int| 0 <= j < i ==> (#[trigger] r@[j])@ == spec_reorder(ps@[j]@, map@),
        decreases ps@.len() - i,
    {
        r.push(reorder_pat(&ps[i], map));
        i = i + 1;
    }
    r
}

} // verus!

verus! {

fn is_single(p: &Pat) -> (r: bool)
    ensures
        r == spec_is_single(p@),
{
    match p {
        Pat::Token(_) => true,
        Pat::Rule(_) => true,
        _ => false,
    }
}

fn all_single(ps: &Vec<Pat>) -> (r: bool)
    ensures
        r == spec_all_single(pats_view(ps@)),
{
    proof {
        lemma_pats_view(ps@);
    }
    let mut i: usize = 0;
    while i < ps.len()
        invariant
            i <= ps@.len(),
            pats_view(ps@).len() == ps@.len(),
            forall|j: int| 0 <= j < ps@.len() ==> pats_view(ps@)[j] == pat_view(ps@[j]),
            forall|j: int| 0 <= j < i ==> spec_is_single(#[trigger] pats_view(ps@)[j]),
        decreases ps@.len() - i,
    {
        if !is_single(&ps[i]) {
            assert(!spec_is_single(pats_view(ps@)[i as int]));
            return false;
        }
        i = i + 1;
    }
    true
}

/// The context a capture's payload imposes on the capture, as
/// `spec_inner_context` describes.
fn inner_context(p: &Pat) -> (r: Result<CaptureContext, CaptureError>)
    ensures
        r == spec_inner_context(p@),
{
    match p {
        Pat::Token(_) => Ok(CaptureContext::Free),
        Pat::Rule(_) => Ok(CaptureContext::Free),
        Pat::Sequence(_) => Ok(CaptureContext::Repetition),
        Pat::ZeroPlus(_) => Ok(CaptureContext::Repetition),
        Pat::OnePlus(_) => Ok(CaptureContext::Repetition),
        Pat::Loop(_) => Ok(CaptureContext::Repetition),
        Pat::Cap(_, _) => Err(CaptureError::NestedCapture),
        Pat::Opt(b) => Ok(
            if is_single(b) {
                CaptureContext::Optional
            } else {
                CaptureContext::Repetition
            },
        ),
        Pat::AnyOf(ps) => Ok(
            if all_single(ps) {
                CaptureContext::Free
            } else {
                CaptureContext::Repetition
            },
        ),
        Pat::BreakOnToken(_) => Err(CaptureError::CaptureOfBreak),
    }
}

/// Assigns capture slots through one pattern, as `spec_assign_pat` describes.
fn assign_pat(p: &Pat, ctx: CaptureContext, st: CaptureState) -> (r: Result<
    (Pat, CaptureState),
    CaptureError,
>)
    requires
        state_wf(st@),
    ensures
        ({
            let s = spec_assign_pat(p@, ctx, st@);
            match r {
                Ok((q, st2)) => s == Ok::<(SpecPat, SpecCapState), CaptureError>((q@, st2@))
                    && state_wf(st2@),
                Err(e) => s == Err::<(SpecPat, SpecCapState), CaptureError>(e),
            }
        }),
    decreases *p, 0int,
{
    match p {
        Pat::Rule(name) => Ok((Pat::Rule(name.clone()), st)),
        Pat::Token(t) => Ok((Pat::Token(t.duplicate()), st)),
        Pat::BreakOnToken(t) => Ok((Pat::BreakOnToken(t.duplicate()), st)),
        Pat::Sequence(ps) => match assign_list(ps, ctx, st, 0) {
            Ok((qs, st2)) => {
                proof {
                    lemma_pats_view(ps@);
                }
                Ok((Pat::Sequence(qs), st2))
            },
            Err(e) => Err(e),
        },
        Pat::Cap(marker, b) => {
            let group: Option<usize> = match marker {
                CaptureInfo::Unnamed => Option::None,
                CaptureInfo::Shared(g) => Option::Some(*g),
                CaptureInfo::Assigned(_) => {
                    return Err(CaptureError::AlreadyAssigned);
                },
            };
            let ic = match inner_context(b) {
                Ok(ic) => ic,
                Err(e) => {
                    return Err(e);
                },
            };
            let actual = ctx_combine(ctx, ic);
            let ty = ctx_type(actual);
            let mut st = st;
            let id = match st.assign(group, ty) {
                Ok(id) => id,
                Err(e) => {
                    return Err(e);
                },
            };
            match assign_pat(b, ctx, st) {
                Ok((q, st2)) => Ok((Pat::Cap(CaptureInfo::Assigned(id), Box::new(q)), st2)),
                Err(e) => Err(e),
            }
        },
        Pat::Opt(b) => {
            let c2 = if ctx == CaptureContext::Repetition {
                CaptureContext::Repetition
            } else {
                CaptureContext::Optional
            };
            match assign_pat(b, c2, st) {
                Ok((q, st2)) => Ok((Pat::Opt(Box::new(q)), st2)),
                Err(e) => Err(e),
            }
        },
        Pat::ZeroPlus(b) => match assign_pat(b, CaptureContext::Repetition, st) {
            Ok((q, st2)) => Ok((Pat::ZeroPlus(Box::new(q)), st2)),
            Err(e) => Err(e),
        },
        Pat::OnePlus(b) => match assign_pat(b, CaptureContext::Repetition, st) {
            Ok((q, st2)) => Ok((Pat::OnePlus(Box::new(q)), st2)),
            Err(e) => Err(e),
        },
        Pat::Loop(b) => match assign_pat(b, CaptureContext::Repetition, st) {
            Ok((q, st2)) => Ok((Pat::Loop(Box::new(q)), st2)),
            Err(e) => Err(e),
        },
        Pat::AnyOf(ps) => {
            proof {
                lemma_pats_view(ps@);
            }
            if ps.len() == 0 {
                return Err(CaptureError::EmptyAlternation);
            }
            match assign_pat(&ps[0], ctx, state_duplicate(&st)) {
                Err(e) => Err(e),
                Ok((first, st1)) => {
                    let mut outs: Vec<Pat> = Vec::new();
                    outs.push(first);
                    proof {
                        lemma_pats_view(outs@);
                        assert(pats_view(outs@) =~= seq![outs@[0]@]);
                    }
                    match assign_branches(ps, ctx, &st, st1, outs, 1) {
                        Err(e) => Err(e),
                        Ok((outs2, stn)) => Ok((Pat::AnyOf(outs2), stn)),
                    }
                },
            }
        },
    }
}

/// Assigns capture slots through the elements of a sequence, as
/// `spec_assign_list` describes.
fn assign_list(ps: &Vec<Pat>, ctx: CaptureContext, st: CaptureState, k: usize) -> (r: Result<
    (Vec<Pat>, CaptureState),
    CaptureError,
>)
    requires
        state_wf(st@),
    ensures
        ({
            let s = spec_assign_list(pats_view(ps@), ctx, st@, k as int);
            match r {
                Ok((qs, st2)) => s == Ok::<(Seq<SpecPat>, SpecCapState), CaptureError>(
                    (pats_view(qs@), st2@),
                ) && state_wf(st2@),
                Err(e) => s == Err::<(Seq<SpecPat>, SpecCapState), CaptureError>(e),
            }
        }),
    decreases *ps, ps@.len() - k, 0int,
{
    proof {
        lemma_pats_view(ps@);
    }
    if k >= ps.len() {
        let out: Vec<Pat> = Vec::new();
        proof {
            lemma_pats_view(out@);
            assert(pats_view(out@) =~= Seq::<SpecPat>::empty());
        }
        Ok((out, st))
    } else {
        match assign_pat(&ps[k], ctx, st) {
            Err(e) => Err(e),
            Ok((q, st1)) => match assign_list(ps, ctx, st1, k + 1) {
                Err(e) => Err(e),
                Ok((qs, st2)) => {
                    let ghost qs_v = qs@;
                    let ghost q_v = q;
                    let mut out = qs;
                    out.insert(0, q);
                    proof {
                        assert(out@ == qs_v.insert(0, q_v));
                        assert(out@.len() == qs_v.len() + 1);
                        assert(out@[0] == q_v);
                        assert(out@.drop_first() =~= qs_v);
                        assert(pats_view(out@) == seq![pat_view(out@[0])] + pats_view(
                            out@.drop_first(),
                        ));
                        assert(pats_view(out@) == seq![pat_view(q_v)] + pats_view(qs_v));
                    }
                    Ok((out, st2))
                },
            },
        }
    }
}

/// Assigns and reconciles the alternatives of an alternation after the
/// first, as `spec_assign_branches` describes.
fn assign_branches(
    ps: &Vec<Pat>,
    ctx: CaptureContext,
    pre: &CaptureState,
    acc: CaptureState,
    outs: Vec<Pat>,
    k: usize,
) -> (r: Result<(Vec<Pat>, CaptureState), CaptureError>)
    requires
        state_wf(pre@),
        state_wf(acc@),
        1 <= k,
    ensures
        ({
            let s = spec_assign_branches(pats_view(ps@), ctx, pre@, acc@, pats_view(outs@), k as int);
            match r {
                Ok((qs, st2)) => s == Ok::<(Seq<SpecPat>, SpecCapState), CaptureError>(
                    (pats_view(qs@), st2@),
                ) && state_wf(st2@),
                Err(e) => s == Err::<(Seq<SpecPat>, SpecCapState), CaptureError>(e),
            }
        }),
    decreases *ps, ps@.len() - k, 0int,
{
    proof {
        lemma_pats_view(ps@);
    }
    if k >= ps.len() {
        return Ok((outs, acc));
    }
    match assign_pat(&ps[k], ctx, state_duplicate(pre)) {
        Err(e) => Err(e),
        Ok((bq, bst)) => {
            let CaptureState { single_ids, shared_ids, capture_types } = acc;
            let (s1, t1) = combine_caps(single_ids, capture_types, &bst.single_ids, &bst.capture_types);
            assert(forall|j: int| 0 <= j < shared_ids@.len() ==> (#[trigger] shared_ids@[j]) < t1@.len());
            let (s2, t2) = combine_caps(shared_ids, t1, &bst.shared_ids, &bst.capture_types);
            assert(forall|j: int| 0 <= j < s1@.len() ==> (#[trigger] s1@[j]) < t2@.len());
            let acc2 = CaptureState { single_ids: s1, shared_ids: s2, capture_types: t2 };
            let map = build_map_for(&acc2, &bst);
            let mapped = reorder_pat(&bq, &map);
            let mut outs = outs;
            let ghost outs_before = outs@;
            outs.push(mapped);
            proof {
                lemma_pats_view(outs@);
                lemma_pats_view(outs_before);
                assert(pats_view(outs@) =~= pats_view(outs_before).push(pat_view(outs@.last())));
            }
            assign_branches(ps, ctx, pre, acc2, outs, k + 1)
        },
    }
}

/// Walks one rule's raw pattern tree and assigns a final slot index and a
/// cardinality to every capture marker, reconciling diverging alternatives;
/// rejects trees whose markers are structurally malformed or already
/// assigned.
pub fn find_and_assign_captures(pat: Pat) -> (r: Result<ParserRule, CaptureError>)
    ensures
        ({
            let s = spec_find_and_assign(pat@);
            match r {
                Ok(pr) => s is Ok && pr.pat@ == s.unwrap().0 && pr.captures@ == s.unwrap().1,
                Err(e) => s == Err::<(SpecPat, Seq<CaptureType>), CaptureError>(e),
            }
        }),
{
    let st = CaptureState::empty();
    match assign_pat(&pat, CaptureContext::Free, st) {
        Ok((q, st2)) => Ok(ParserRule { pat: q, captures: st2.capture_types }),
        Err(e) => Err(e),
    }
}

} // verus!

verus! {

/// The message text of each capture defect.
pub open spec fn spec_capture_err_msg(e: CaptureError) -> Seq<char> {
    match e {
        CaptureError::SharedOutOfOrder => "A shared capture group was used before the previous group was assigned"@,
        CaptureError::AlreadyAssigned => "Capture assignment was run on a pattern whose captures were already assigned"@,
        CaptureError::NestedCapture => "Cannot have a capture just inside a capture"@,
        CaptureError::CaptureOfBreak => "Cannot capture a break-on-token pattern"@,
        CaptureError::EmptyAlternation => "An alternation must have at least one alternative"@,
    }
}

impl CaptureError {
    /// What went wrong, in words, as `spec_capture_err_msg` describes.
    pub fn message(&self) -> (r: String)
        ensures
            r@ == spec_capture_err_msg(*self),
    {
        match self {
            CaptureError::SharedOutOfOrder => "A shared capture group was used before the previous group was assigned".to_owned(),
            CaptureError::AlreadyAssigned => "Capture assignment was run on a pattern whose captures were already assigned".to_owned(),
            CaptureError::NestedCapture => "Cannot have a capture just inside a capture".to_owned(),
            CaptureError::CaptureOfBreak => "Cannot capture a break-on-token pattern".to_owned(),
            CaptureError::EmptyAlternation => "An alternation must have at least one alternative".to_owned(),
        }
    }
}

} // verus!
