//! The analysis of one signature from end to end.

use vstd::prelude::*;
use crate::collect::{bound_regions, lemma_join_empty, RefVisitor};
use crate::elision::{could_use_elision, elidable, unnamed_and_static};
use crate::items::{ImplItem, ImplItemKind, Item, ItemKind, TraitItem, TraitItemKind, TraitMethod};
use crate::region::{Ident, Lifetime, Span};
use crate::signature::{
    Body, Declarations, FnDecl, GenericArg, GenericBound, GenericParam, GenericParamKind,
    Generics, Signature,
};
use crate::unused::{report_extra_lifetimes, unused_regions};
use crate::where_clause::{has_where_lifetimes, where_lifetimes};

verus! {

/// The region annotations among `args`, in order.
pub open spec fn lifetime_args(args: Seq<GenericArg>) -> Seq<Lifetime>
    decreases args.len(),
{
    if args.len() == 0 {
        Seq::empty()
    } else {
        let rest = lifetime_args(args.drop_last());
        match args.last() {
            GenericArg::Lifetime(lt) => rest.push(lt),
            GenericArg::Type(_) => rest,
        }
    }
}

/// The region annotations among the generic arguments of the trait that a
/// bound names.
pub open spec fn bound_lifetime_args(bound: GenericBound) -> Seq<Lifetime> {
    match bound {
        GenericBound::Trait(r) => lifetime_args(r.trait_ref.args@),
        GenericBound::Outlives(_) => Seq::empty(),
    }
}

/// `bound_lifetime_args` over a bound list.
pub open spec fn bounds_lifetime_args(bounds: Seq<GenericBound>) -> Seq<Lifetime>
    decreases bounds.len(),
{
    if bounds.len() == 0 {
        Seq::empty()
    } else {
        bounds_lifetime_args(bounds.drop_last()) + bound_lifetime_args(bounds.last())
    }
}

/// The region annotations among the generic arguments of the traits that
/// bound the type parameters of `params`.
pub open spec fn type_bound_lts(params: Seq<GenericParam>) -> Seq<Lifetime>
    decreases params.len(),
{
    if params.len() == 0 {
        Seq::empty()
    } else {
        let rest = type_bound_lts(params.drop_last());
        if params.last().kind == GenericParamKind::Type {
            rest + bounds_lifetime_args(params.last().bounds@)
        } else {
            rest
        }
    }
}

/// Whether a walk over `bound` meets a named region.
pub open spec fn bound_names_region(d: Declarations, bound: GenericBound) -> bool {
    exists|k: int|
        0 <= k < bound_regions(d, bound).lts.len() && (#[trigger] bound_regions(d, bound).lts[k])
            is Named
}

/// Whether some bound of `bounds` holds a named region.
pub open spec fn bounds_name_region(d: Declarations, bounds: Seq<GenericBound>) -> bool {
    exists|j: int| 0 <= j < bounds.len() && bound_names_region(d, #[trigger] bounds[j])
}

/// Whether a bound on one of the type parameters of `params` holds a named
/// region.
pub open spec fn type_bounds_name_region(d: Declarations, params: Seq<GenericParam>) -> bool {
    exists|i: int|
        0 <= i < params.len() && (#[trigger] params[i]).kind == GenericParamKind::Type
            && bounds_name_region(d, params[i].bounds@)
}

/// Whether the explicit regions of a signature could be left to elision: its
/// `where` clause mentions no region in a way that forbids the question, no
/// bound of a type parameter holds a named region, and elision would give
/// back the regions written.
pub open spec fn eligible_for_elision(
    d: Declarations,
    decl: FnDecl,
    body: Option<&Body>,
    generics: Generics,
) -> bool {
    &&& !where_lifetimes(d, generics.where_clause.predicates@)
    &&& !type_bounds_name_region(d, generics.params@)
    &&& elidable(d, decl, body, generics.params@, type_bound_lts(generics.params@))
}

/// What the analysis says of one signature.
#[derive(Debug)]
pub struct Report {
    /// Whether the explicit regions could be left to elision.
    pub eligible_for_elision: bool,
    /// The declared regions that are never used, each with the place of its
    /// declaration.
    pub unused_region_findings: Vec<(Ident, Span)>,
}

impl View for Report {
    type V = (bool, Seq<(Ident, Span)>);

    open spec fn view(&self) -> (bool, Seq<(Ident, Span)>) {
        (self.eligible_for_elision, self.unused_region_findings@)
    }
}

/// The report owed for a signature: nothing at all for one that comes out of
/// the expansion of a macro; else both verdicts, neither depending on the
/// other.
pub open spec fn report(
    d: Declarations,
    decl: FnDecl,
    body: Option<&Body>,
    generics: Generics,
    in_external_macro: bool,
) -> (bool, Seq<(Ident, Span)>) {
    if in_external_macro {
        (false, Seq::empty())
    } else {
        (eligible_for_elision(d, decl, body, generics), unused_regions(decl, generics))
    }
}

/// Appends the region annotations among `args` to `bounds_lts`.
fn push_lifetime_args(bounds_lts: &mut Vec<Lifetime>, args: &Vec<GenericArg>)
    ensures
        final(bounds_lts)@ == old(bounds_lts)@ + lifetime_args(args@),
{
    let mut i: usize = 0;
    while i < args.len()
        invariant
            i <= args.len(),
            bounds_lts@ == old(bounds_lts)@ + lifetime_args(args@.take(i as int)),
        decreases args.len() - i,
    {
        assert(args@.take(i + 1).drop_last() =~= args@.take(i as int));
        if let GenericArg::Lifetime(lt) = &args[i] {
            bounds_lts.push(*lt);
        }
        i += 1;
    }
    assert(args@.take(args.len() as int) =~= args@);
}

/// Goes through the bounds of one type parameter: says whether none of them
/// holds a named region, and if so appends the region annotations among the
/// generic arguments of their traits to `bounds_lts`.
fn harvest_bounds(
    cx: &Declarations,
    bounds: &Vec<GenericBound>,
    bounds_lts: &mut Vec<Lifetime>,
) -> (ok: bool)
    ensures
        ok == !bounds_name_region(*cx, bounds@),
        ok ==> final(bounds_lts)@ == old(bounds_lts)@ + bounds_lifetime_args(bounds@),
{
    let mut j: usize = 0;
    while j < bounds.len()
        invariant
            j <= bounds.len(),
            forall|k: int| 0 <= k < j ==> !bound_names_region(*cx, #[trigger] bounds@[k]),
            bounds_lts@ == old(bounds_lts)@ + bounds_lifetime_args(bounds@.take(j as int)),
        decreases bounds.len() - j,
    {
        let bound = &bounds[j];
        let mut visitor = RefVisitor::new(cx);
        visitor.visit_param_bound(bound);
        proof {
            lemma_join_empty(bound_regions(*cx, *bound));
        }
        if !unnamed_and_static(visitor.lts.as_slice()) {
            return false;
        }
        if let GenericBound::Trait(trait_ref) = bound {
            push_lifetime_args(bounds_lts, &trait_ref.trait_ref.args);
        }
        proof {
            assert(bounds@.take(j + 1).drop_last() =~= bounds@.take(j as int));
        }
        j += 1;
    }
    assert(bounds@.take(bounds.len() as int) =~= bounds@);
    true
}

/// Analyses one function: its parameter and return types, its generics and,
/// where it has one, its body.
pub fn check_fn_inner(
    cx: &Declarations,
    decl: &FnDecl,
    body: Option<&Body>,
    generics: &Generics,
    in_external_macro: bool,
) -> (r: Report)
    ensures
        r@ == report(*cx, *decl, body, *generics, in_external_macro),
{
    if in_external_macro {
        return Report { eligible_for_elision: false, unused_region_findings: Vec::new() };
    }
    let unused = report_extra_lifetimes(decl, generics);
    if has_where_lifetimes(cx, &generics.where_clause) {
        return Report { eligible_for_elision: false, unused_region_findings: unused };
    }
    let mut bounds_lts: Vec<Lifetime> = Vec::new();
    let mut i: usize = 0;
    while i < generics.params.len()
        invariant
            i <= generics.params.len(),
            !in_external_macro,
            unused@ == unused_regions(*decl, *generics),
            forall|k: int|
                0 <= k < i ==> !((#[trigger] generics.params@[k]).kind == GenericParamKind::Type
                    && bounds_name_region(*cx, generics.params@[k].bounds@)),
            bounds_lts@ == type_bound_lts(generics.params@.take(i as int)),
        decreases generics.params.len() - i,
    {
        let typ = &generics.params[i];
        assert(generics.params@.take(i + 1).drop_last() =~= generics.params@.take(i as int));
        if let GenericParamKind::Type = typ.kind {
            if !harvest_bounds(cx, &typ.bounds, &mut bounds_lts) {
                return Report { eligible_for_elision: false, unused_region_findings: unused };
            }
        }
        i += 1;
    }
    assert(generics.params@.take(generics.params.len() as int) =~= generics.params@);
    let eligible = could_use_elision(cx, decl, body, generics.params.as_slice(), bounds_lts);
    Report { eligible_for_elision: eligible, unused_region_findings: unused }
}

/// Analyses one signature, with the body of its function where there is one:
/// says whether its explicit regions could be left to elision, and lists the
/// regions that it declares and never uses.
pub fn check_signature(cx: &Declarations, signature: &Signature, body: Option<&Body>) -> (r: Report)
    ensures
        r.eligible_for_elision == eligible_for_elision(
            *cx,
            signature.decl,
            body,
            signature.generics,
        ),
        r.unused_region_findings@ == unused_regions(signature.decl, signature.generics),
{
    check_fn_inner(cx, &signature.decl, body, &signature.generics, false)
}

/// The analysis as a pass over the items of a program: each item that
/// carries a function signature gets a report.
#[derive(Clone, Copy, Debug)]
pub struct LifetimePass;

impl LifetimePass {
    /// Reports on a free function; says nothing of any other item.
    pub fn check_item(&self, cx: &Declarations, item: &Item) -> (r: Option<Report>)
        ensures
            match item.node {
                ItemKind::Fn(decl, generics, body) => r.is_some() && r.unwrap()@ == report(
                    *cx,
                    decl,
                    Some(&body),
                    generics,
                    item.in_external_macro,
                ),
                ItemKind::Other => r.is_none(),
            },
    {
        if let ItemKind::Fn(decl, generics, body) = &item.node {
            Some(check_fn_inner(cx, decl, Some(body), generics, item.in_external_macro))
        } else {
            None
        }
    }

    /// Reports on a method of an `impl` block; says nothing of any other
    /// item.
    pub fn check_impl_item(&self, cx: &Declarations, item: &ImplItem) -> (r: Option<Report>)
        ensures
            match item.node {
                ImplItemKind::Method(sig, body) => r.is_some() && r.unwrap()@ == report(
                    *cx,
                    sig.decl,
                    Some(&body),
                    item.generics,
                    item.in_external_macro,
                ),
                ImplItemKind::Other => r.is_none(),
            },
    {
        if let ImplItemKind::Method(sig, body) = &item.node {
            Some(check_fn_inner(cx, &sig.decl, Some(body), &item.generics, item.in_external_macro))
        } else {
            None
        }
    }

    /// Reports on a method of a trait, with its body where the trait
    /// provides one; says nothing of any other item.
    pub fn check_trait_item(&self, cx: &Declarations, item: &TraitItem) -> (r: Option<Report>)
        ensures
            match item.node {
                TraitItemKind::Method(sig, TraitMethod::Required) => r.is_some() && r.unwrap()@
                    == report(*cx, sig.decl, None, item.generics, item.in_external_macro),
                TraitItemKind::Method(sig, TraitMethod::Provided(body)) => r.is_some()
                    && r.unwrap()@ == report(
                    *cx,
                    sig.decl,
                    Some(&body),
                    item.generics,
                    item.in_external_macro,
                ),
                TraitItemKind::Other => r.is_none(),
            },
    {
        if let TraitItemKind::Method(sig, body) = &item.node {
            let body = match body {
                TraitMethod::Required => None,
                TraitMethod::Provided(id) => Some(id),
            };
            Some(check_fn_inner(cx, &sig.decl, body, &item.generics, item.in_external_macro))
        } else {
            None
        }
    }
}

} // verus!
