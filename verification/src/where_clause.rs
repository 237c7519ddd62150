//! Looks for regions in a `where` clause.

use vstd::prelude::*;
use crate::allowed::{allowed, allowed_lts_from};
use crate::collect::{bounds_regions, lemma_join_empty, ty_regions, RefVisitor};
use crate::elision::all_allowed;
use crate::signature::{Declarations, WhereClause, WherePredicate};

verus! {

/// Whether a predicate stands in the way of judging the signature: it is a
/// region predicate; or a bound predicate whose bounded type holds a region,
/// or whose bounds hold a region other than those that the predicate itself
/// binds without bounds, the unnamed and the universal one; or an equality
/// predicate with a region on either side.
pub open spec fn predicate_names_region(d: Declarations, pred: WherePredicate) -> bool {
    match pred {
        WherePredicate::RegionPredicate { .. } => true,
        WherePredicate::BoundPredicate { bound_generic_params, bounded_ty, bounds } => {
            ||| ty_regions(d, bounded_ty).lts.len() > 0
            ||| exists|k: int|
                0 <= k < bounds_regions(d, bounds@).lts.len() && !allowed(
                    bound_generic_params@,
                    #[trigger] bounds_regions(d, bounds@).lts[k],
                )
        },
        WherePredicate::EqPredicate { lhs_ty, rhs_ty } => {
            ||| ty_regions(d, lhs_ty).lts.len() > 0
            ||| ty_regions(d, rhs_ty).lts.len() > 0
        },
    }
}

/// Whether some predicate of the clause stands in the way.
pub open spec fn where_lifetimes(d: Declarations, predicates: Seq<WherePredicate>) -> bool {
    exists|i: int| 0 <= i < predicates.len() && predicate_names_region(d, #[trigger] predicates[i])
}

/// Are any lifetimes mentioned in the `where` clause? If yes, we don't try to
/// reason about elision.
pub fn has_where_lifetimes(cx: &Declarations, where_clause: &WhereClause) -> (r: bool)
    ensures
        r == where_lifetimes(*cx, where_clause.predicates@),
{
    let mut i: usize = 0;
    while i < where_clause.predicates.len()
        invariant
            i <= where_clause.predicates.len(),
            forall|k: int|
                0 <= k < i ==> !predicate_names_region(
                    *cx,
                    #[trigger] where_clause.predicates@[k],
                ),
        decreases where_clause.predicates.len() - i,
    {
        match &where_clause.predicates[i] {
            WherePredicate::RegionPredicate { .. } => {
                return true;
            },
            WherePredicate::BoundPredicate { bound_generic_params, bounded_ty, bounds } => {
                // a predicate like F: Trait or F: for<'a> Trait<'a>
                let mut visitor = RefVisitor::new(cx);
                // walk the type F, it may not contain LT refs
                visitor.visit_ty(bounded_ty);
                proof {
                    lemma_join_empty(ty_regions(*cx, *bounded_ty));
                }
                if visitor.lts.len() != 0 {
                    return true;
                }
                // if the bounds define new lifetimes, they are fine to occur
                let allowed_lts = allowed_lts_from(bound_generic_params.as_slice());
                // now walk the bounds
                visitor.visit_param_bounds(bounds);
                // and check that all lifetimes are allowed
                if !all_allowed(allowed_lts.as_slice(), visitor.lts.as_slice()) {
                    return true;
                }
            },
            WherePredicate::EqPredicate { lhs_ty, rhs_ty } => {
                let mut visitor = RefVisitor::new(cx);
                visitor.visit_ty(lhs_ty);
                visitor.visit_ty(rhs_ty);
                proof {
                    lemma_join_empty(ty_regions(*cx, *lhs_ty));
                }
                if visitor.lts.len() != 0 {
                    return true;
                }
            },
        }
        i += 1;
    }
    false
}

} // verus!
