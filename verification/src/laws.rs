//! Laws of capture assignment, stated and proved once for all inputs:
//! cardinality determinism for captures in plain sequence context, the
//! effect of a repetition anywhere above them, and the rejection of trees
//! whose captures are already assigned.
use vstd::prelude::*;

use crate::captures::{
    spec_assign_branches, spec_assign_list, spec_assign_pat, spec_ctx_type, spec_find_and_assign,
    CaptureContext, CaptureError, CaptureType, SpecCapState,
};
use crate::grammar::{SpecCapInfo, SpecPat};

verus! {

/// A pattern whose captures occur only inside sequences and capture a
/// single token or rule reference, with no shared groups: token and rule
/// leaves, sequences of such patterns, and fresh captures of a leaf.
pub open spec fn plain_seq_pat(p: SpecPat) -> bool
    decreases p, 0int,
{
    match p {
        SpecPat::Token(_) => true,
        SpecPat::Rule(_) => true,
        SpecPat::Sequence(ps) => plain_seq_pats(ps, 0),
        SpecPat::Cap(SpecCapInfo::Unnamed, b) => (*b is Token) || (*b is Rule),
        _ => false,
    }
}

/// Whether every pattern of the list from index `k` on is a plain sequence
/// pattern.
pub open spec fn plain_seq_pats(ps: Seq<SpecPat>, k: int) -> bool
    decreases ps, ps.len() - k, 1int,
{
    if k < 0 || k >= ps.len() {
        true
    } else {
        plain_seq_pat(ps[k]) && plain_seq_pats(ps, k + 1)
    }
}

/// Capture assignment on a plain sequence pattern always succeeds, leaves
/// the slots already allocated untouched, and gives every newly allocated
/// slot exactly the cardinality the ambient context dictates.
pub proof fn lemma_plain_assign(p: SpecPat, ctx: CaptureContext, st: SpecCapState)
    requires
        plain_seq_pat(p),
    ensures
        spec_assign_pat(p, ctx, st) is Ok,
        ({
            let st2 = spec_assign_pat(p, ctx, st)->Ok_0.1;
            &&& st2.types.len() >= st.types.len()
            &&& forall|i: int| 0 <= i < st.types.len() ==> st2.types[i] == st.types[i]
            &&& forall|i: int|
                st.types.len() <= i < st2.types.len() ==> st2.types[i] == spec_ctx_type(ctx)
            &&& st2.shareds == st.shareds
        }),
    decreases p, 0int,
{
    match p {
        SpecPat::Token(_) => {},
        SpecPat::Rule(_) => {},
        SpecPat::Sequence(ps) => {
            lemma_plain_assign_list(ps, ctx, st, 0);
        },
        SpecPat::Cap(SpecCapInfo::Unnamed, b) => {
            assert(crate::captures::spec_inner_context(*b) == Ok::<CaptureContext, CaptureError>(
                CaptureContext::Free,
            ));
            let actual = crate::captures::spec_ctx_combine(ctx, CaptureContext::Free);
            assert(actual == ctx);
            let a = crate::captures::spec_state_assign(st, Option::None, spec_ctx_type(ctx));
            assert(a is Ok);
            let st1 = a->Ok_0.0;
            assert(st1.types == st.types.push(spec_ctx_type(ctx)));
            assert(spec_assign_pat(*b, ctx, st1) == Ok::<(SpecPat, SpecCapState), CaptureError>(
                (*b, st1),
            ));
            let st2 = spec_assign_pat(p, ctx, st)->Ok_0.1;
            assert(st2 == st1);
            assert(forall|i: int| 0 <= i < st.types.len() ==> st2.types[i] == st.types[i]);
            assert(forall|i: int|
                st.types.len() <= i < st2.types.len() ==> st2.types[i] == spec_ctx_type(ctx));
        },
        _ => {},
    }
}

/// The list form of `lemma_plain_assign`, threading the state through the
/// elements from index `k` on.
pub proof fn lemma_plain_assign_list(ps: Seq<SpecPat>, ctx: CaptureContext, st: SpecCapState, k: int)
    requires
        plain_seq_pats(ps, k),
    ensures
        spec_assign_list(ps, ctx, st, k) is Ok,
        ({
            let st2 = spec_assign_list(ps, ctx, st, k)->Ok_0.1;
            &&& st2.types.len() >= st.types.len()
            &&& forall|i: int| 0 <= i < st.types.len() ==> st2.types[i] == st.types[i]
            &&& forall|i: int|
                st.types.len() <= i < st2.types.len() ==> st2.types[i] == spec_ctx_type(ctx)
            &&& st2.shareds == st.shareds
        }),
    decreases ps, ps.len() - k, 1int,
{
    if 0 <= k < ps.len() {
        lemma_plain_assign(ps[k], ctx, st);
        let st1 = spec_assign_pat(ps[k], ctx, st)->Ok_0.1;
        lemma_plain_assign_list(ps, ctx, st1, k + 1);
    }
}

/// Capture cardinality determinism, first half: on a pattern whose captures
/// occur only inside sequences and capture a single token or rule
/// reference, every capture slot gets cardinality `Single`.
pub proof fn law_plain_captures_single(p: SpecPat)
    requires
        plain_seq_pat(p),
    ensures
        spec_find_and_assign(p) is Ok,
        forall|i: int|
            0 <= i < spec_find_and_assign(p)->Ok_0.1.len() ==> spec_find_and_assign(p)->Ok_0.1[i]
                == CaptureType::Single,
{
    let st0 = SpecCapState { singles: Seq::empty(), shareds: Seq::empty(), types: Seq::empty() };
    lemma_plain_assign(p, CaptureContext::Free, st0);
}

/// Capture cardinality determinism, second half: under a repetition —
/// which any enclosing zero-or-more, one-or-more or loop imposes on its
/// payload, and which survives every nested sequence, optional or
/// quantifier below it — the same captures all get cardinality `Multiple`.
pub proof fn law_repetition_captures_multiple(p: SpecPat)
    requires
        plain_seq_pat(p),
    ensures
        spec_assign_pat(SpecPat::ZeroPlus(Box::new(p)), CaptureContext::Free, SpecCapState {
            singles: Seq::empty(),
            shareds: Seq::empty(),
            types: Seq::empty(),
        }) is Ok,
        ({
            let st2 = spec_assign_pat(SpecPat::ZeroPlus(Box::new(p)), CaptureContext::Free, SpecCapState {
                singles: Seq::empty(),
                shareds: Seq::empty(),
                types: Seq::empty(),
            })->Ok_0.1;
            forall|i: int| 0 <= i < st2.types.len() ==> st2.types[i] == CaptureType::Multiple
        }),
{
    let st0 = SpecCapState { singles: Seq::empty(), shareds: Seq::empty(), types: Seq::empty() };
    lemma_plain_assign(p, CaptureContext::Repetition, st0);
}

/// Whether the pattern holds a capture marker that is already assigned.
pub open spec fn has_assigned(p: SpecPat) -> bool
    decreases p, 0int,
{
    match p {
        SpecPat::Rule(_) => false,
        SpecPat::Token(_) => false,
        SpecPat::BreakOnToken(_) => false,
        SpecPat::Sequence(ps) => has_assigned_list(ps, 0),
        SpecPat::AnyOf(ps) => has_assigned_list(ps, 0),
        SpecPat::Cap(c, b) => (c is Assigned) || has_assigned(*b),
        SpecPat::Opt(b) => has_assigned(*b),
        SpecPat::ZeroPlus(b) => has_assigned(*b),
        SpecPat::OnePlus(b) => has_assigned(*b),
        SpecPat::Loop(b) => has_assigned(*b),
    }
}

/// Whether any pattern of the list from index `k` on holds an assigned
/// capture marker.
pub open spec fn has_assigned_list(ps: Seq<SpecPat>, k: int) -> bool
    decreases ps, ps.len() - k, 1int,
{
    if k < 0 || k >= ps.len() {
        false
    } else {
        has_assigned(ps[k]) || has_assigned_list(ps, k + 1)
    }
}

/// Assignment refuses a pattern holding an already-assigned capture marker,
/// whatever the context and state.
pub proof fn lemma_assigned_rejected(p: SpecPat, ctx: CaptureContext, st: SpecCapState)
    requires
        has_assigned(p),
    ensures
        spec_assign_pat(p, ctx, st) is Err,
    decreases p, 0int,
{
    match p {
        SpecPat::Sequence(ps) => {
            lemma_assigned_rejected_list(ps, ctx, st, 0);
        },
        SpecPat::AnyOf(ps) => {
            if ps.len() > 0 {
                if has_assigned(ps[0]) {
                    lemma_assigned_rejected(ps[0], ctx, st);
                } else {
                    match spec_assign_pat(ps[0], ctx, st) {
                        Err(_) => {},
                        Ok((first, st1)) => {
                            assert(has_assigned_list(ps, 0));
                            assert(has_assigned_list(ps, 1));
                            lemma_assigned_rejected_branches(ps, ctx, st, st1, seq![first], 1);
                        },
                    }
                }
            }
        },
        SpecPat::Cap(c, b) => {
            if !(c is Assigned) {
                if has_assigned(*b) {
                    match crate::captures::spec_inner_context(*b) {
                        Err(_) => {},
                        Ok(ic) => {
                            let group = match c {
                                SpecCapInfo::Unnamed => Option::<usize>::None,
                                SpecCapInfo::Shared(g) => Option::Some(g),
                                SpecCapInfo::Assigned(i) => Option::Some(i),
                            };
                            let actual = crate::captures::spec_ctx_combine(ctx, ic);
                            match crate::captures::spec_state_assign(st, group, spec_ctx_type(actual)) {
                                Err(_) => {},
                                Ok((st1, _)) => {
                                    lemma_assigned_rejected(*b, ctx, st1);
                                },
                            }
                        },
                    }
                }
            }
        },
        SpecPat::Opt(b) => {
            let c2 = if ctx == CaptureContext::Repetition {
                CaptureContext::Repetition
            } else {
                CaptureContext::Optional
            };
            lemma_assigned_rejected(*b, c2, st);
        },
        SpecPat::ZeroPlus(b) => {
            lemma_assigned_rejected(*b, CaptureContext::Repetition, st);
        },
        SpecPat::OnePlus(b) => {
            lemma_assigned_rejected(*b, CaptureContext::Repetition, st);
        },
        SpecPat::Loop(b) => {
            lemma_assigned_rejected(*b, CaptureContext::Repetition, st);
        },
        _ => {},
    }
}

/// The list form of `lemma_assigned_rejected`: a sequence with an assigned
/// marker at or after index `k` is refused.
pub proof fn lemma_assigned_rejected_list(ps: Seq<SpecPat>, ctx: CaptureContext, st: SpecCapState, k: int)
    requires
        has_assigned_list(ps, k),
    ensures
        spec_assign_list(ps, ctx, st, k) is Err,
    decreases ps, ps.len() - k, 1int,
{
    if 0 <= k < ps.len() {
        if has_assigned(ps[k]) {
            lemma_assigned_rejected(ps[k], ctx, st);
        } else {
            match spec_assign_pat(ps[k], ctx, st) {
                Err(_) => {},
                Ok((_, st1)) => {
                    lemma_assigned_rejected_list(ps, ctx, st1, k + 1);
                },
            }
        }
    }
}

/// The alternation form of `lemma_assigned_rejected`: an alternation with
/// an assigned marker in an alternative at or after index `k` is refused.
pub proof fn lemma_assigned_rejected_branches(
    ps: Seq<SpecPat>,
    ctx: CaptureContext,
    pre: SpecCapState,
    acc: SpecCapState,
    outs: Seq<SpecPat>,
    k: int,
)
    requires
        has_assigned_list(ps, k),
        k >= 1,
    ensures
        spec_assign_branches(ps, ctx, pre, acc, outs, k) is Err,
    decreases ps, ps.len() - k, 1int,
{
    if 0 <= k < ps.len() {
        if has_assigned(ps[k]) {
            lemma_assigned_rejected(ps[k], ctx, pre);
        } else {
            match spec_assign_pat(ps[k], ctx, pre) {
                Err(_) => {},
                Ok((bq, bst)) => {
                    let (s1, t1) = crate::captures::spec_combine(acc.singles, acc.types, bst.singles, bst.types);
                    let (s2, t2) = crate::captures::spec_combine(acc.shareds, t1, bst.shareds, bst.types);
                    let acc2 = SpecCapState { singles: s1, shareds: s2, types: t2 };
                    let map = crate::captures::spec_map_for(acc2, bst);
                    let mapped = crate::captures::spec_reorder(bq, map);
                    lemma_assigned_rejected_branches(ps, ctx, pre, acc2, outs.push(mapped), k + 1);
                },
            }
        }
    }
}

/// Idempotent capture assignment is refused: assignment is defined only for
/// not-yet-assigned trees, so a tree that already carries assigned capture
/// slots — as every tree that assignment has produced with at least one
/// capture does — is rejected rather than silently reassigned.
pub proof fn law_reassignment_rejected(p: SpecPat)
    requires
        has_assigned(p),
    ensures
        spec_find_and_assign(p) is Err,
{
    let st0 = SpecCapState { singles: Seq::empty(), shareds: Seq::empty(), types: Seq::empty() };
    lemma_assigned_rejected(p, CaptureContext::Free, st0);
}

} // verus!
