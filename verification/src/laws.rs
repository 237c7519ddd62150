//! What holds of the analysis for every signature.

use vstd::prelude::*;
use crate::unused::{
    declared_regions, has_region, signature_lifetimes, unused_among, unused_regions, uses,
    with_region,
};
use crate::allowed::{allowed, allowed_set};
use crate::collect::{
    arg_regions, args_regions, params_regions, path_regions, ty_regions, tys_regions,
};
use crate::elision::{feasible, input_regions, named_from_bounds, output_regions};
use crate::pass::{
    bound_lifetime_args, bound_names_region, bounds_lifetime_args, bounds_name_region,
    check_signature, eligible_for_elision, lifetime_args, report, type_bound_lts,
    type_bounds_name_region, Report,
};
use crate::where_clause::predicate_names_region;
use crate::region::{descriptor, Ident, Lifetime, RefLt, Span};
use crate::signature::{
    Body, Declarations, FnDecl, GenericArg, GenericBound, GenericParam, GenericParamKind,
    Generics, Signature, Ty,
};

verus! {

/// Whether one of `lts` carries a name chosen by the programmer.
pub open spec fn has_ident(lts: Seq<Lifetime>) -> bool {
    exists|k: int| 0 <= k < lts.len() && (#[trigger] lts[k]).name is Ident
}

/// Whether one of `lts` is a named region.
pub open spec fn has_named(lts: Seq<RefLt>) -> bool {
    exists|k: int| 0 <= k < lts.len() && (#[trigger] lts[k]) is Named
}

proof fn lemma_has_named_concat(a: Seq<RefLt>, b: Seq<RefLt>)
    ensures
        has_named(a + b) <==> has_named(a) || has_named(b),
{
    if has_named(a) {
        let k = choose|k: int| 0 <= k < a.len() && (#[trigger] a[k]) is Named;
        assert((a + b)[k] is Named);
    }
    if has_named(b) {
        let k = choose|k: int| 0 <= k < b.len() && (#[trigger] b[k]) is Named;
        assert((a + b)[a.len() + k] is Named);
    }
    if has_named(a + b) {
        let k = choose|k: int| 0 <= k < (a + b).len() && (#[trigger] (a + b)[k]) is Named;
        if k < a.len() {
            assert(a[k] is Named);
        } else {
            assert(b[k - a.len()] is Named);
        }
    }
}

proof fn lemma_has_ident_concat(a: Seq<Lifetime>, b: Seq<Lifetime>)
    ensures
        has_ident(a + b) <==> has_ident(a) || has_ident(b),
{
    if has_ident(a) {
        let k = choose|k: int| 0 <= k < a.len() && (#[trigger] a[k]).name is Ident;
        assert((a + b)[k].name is Ident);
    }
    if has_ident(b) {
        let k = choose|k: int| 0 <= k < b.len() && (#[trigger] b[k]).name is Ident;
        assert((a + b)[a.len() + k].name is Ident);
    }
    if has_ident(a + b) {
        let k = choose|k: int| 0 <= k < (a + b).len() && (#[trigger] (a + b)[k]).name is Ident;
        if k < a.len() {
            assert(a[k].name is Ident);
        } else {
            assert(b[k - a.len()].name is Ident);
        }
    }
}

/// A walk over generic arguments records a named region for each argument
/// that names one.
proof fn lemma_args_record_names(d: Declarations, args: Seq<GenericArg>)
    requires
        has_ident(lifetime_args(args)),
    ensures
        has_named(args_regions(d, args).lts),
    decreases args.len(),
{
    let rest = args.drop_last();
    let a = args_regions(d, rest).lts;
    let b = arg_regions(d, args.last()).lts;
    lemma_has_named_concat(a, b);
    match args.last() {
        GenericArg::Lifetime(lt) => {
            assert(lifetime_args(args) =~= lifetime_args(rest) + seq![lt]);
            lemma_has_ident_concat(lifetime_args(rest), seq![lt]);
            if has_ident(lifetime_args(rest)) {
                lemma_args_record_names(d, rest);
            } else {
                assert(seq![lt][0] == lt);
                assert(descriptor(lt) is Named);
                assert(b[0] is Named);
            }
        },
        GenericArg::Type(_) => {
            lemma_args_record_names(d, rest);
        },
    }
}

/// A walk over a bound records a named region where the trait of the bound
/// has one among its generic arguments.
proof fn lemma_bound_records_names(d: Declarations, bound: GenericBound)
    requires
        has_ident(bound_lifetime_args(bound)),
    ensures
        bound_names_region(d, bound),
{
    match bound {
        GenericBound::Trait(r) => {
            lemma_args_record_names(d, r.trait_ref.args@);
            lemma_has_named_concat(
                params_regions(d, r.bound_generic_params@).lts,
                path_regions(d, r.trait_ref).lts,
            );
        },
        GenericBound::Outlives(_) => {},
    }
}

proof fn lemma_bounds_record_names(d: Declarations, bounds: Seq<GenericBound>)
    requires
        has_ident(bounds_lifetime_args(bounds)),
    ensures
        bounds_name_region(d, bounds),
    decreases bounds.len(),
{
    let rest = bounds.drop_last();
    lemma_has_ident_concat(bounds_lifetime_args(rest), bound_lifetime_args(bounds.last()));
    if has_ident(bounds_lifetime_args(rest)) {
        lemma_bounds_record_names(d, rest);
        let j = choose|j: int| 0 <= j < rest.len() && bound_names_region(d, #[trigger] rest[j]);
        assert(bound_names_region(d, bounds[j]));
    } else {
        lemma_bound_records_names(d, bounds.last());
        assert(bound_names_region(d, bounds[bounds.len() - 1]));
    }
}

/// Where an annotation taken from the bounds of the type parameters carries a
/// name chosen by the programmer, a walk over one of those bounds meets a
/// named region.
pub proof fn lemma_type_bounds_record_names(d: Declarations, params: Seq<GenericParam>)
    requires
        has_ident(type_bound_lts(params)),
    ensures
        type_bounds_name_region(d, params),
    decreases params.len(),
{
    let rest = params.drop_last();
    let last = params.last();
    if last.kind == GenericParamKind::Type {
        lemma_has_ident_concat(type_bound_lts(rest), bounds_lifetime_args(last.bounds@));
    }
    if has_ident(type_bound_lts(rest)) {
        lemma_type_bounds_record_names(d, rest);
        let i = choose|i: int|
            0 <= i < rest.len() && (#[trigger] rest[i]).kind == GenericParamKind::Type
                && bounds_name_region(d, rest[i].bounds@);
        assert(params[i] == rest[i]);
    } else {
        lemma_bounds_record_names(d, last.bounds@);
        assert(params[params.len() - 1] == last);
    }
}

/// What annotations without a name chosen by the programmer add to the input
/// regions is allowed under no declarations.
pub proof fn lemma_named_from_bounds(bounds_lts: Seq<Lifetime>, params: Seq<GenericParam>, k: int)
    requires
        !has_ident(bounds_lts),
        0 <= k < named_from_bounds(bounds_lts).len(),
    ensures
        !allowed(params, named_from_bounds(bounds_lts)[k]),
    decreases bounds_lts.len(),
{
    let rest = bounds_lts.drop_last();
    let last = bounds_lts.last();
    assert(bounds_lts[bounds_lts.len() - 1] == last);
    assert forall|j: int| 0 <= j < rest.len() implies !((#[trigger] rest[j]).name is Ident) by {
        assert(bounds_lts[j] == rest[j]);
    }
    if k < named_from_bounds(rest).len() {
        lemma_named_from_bounds(rest, params, k);
    }
}

/// A signature in whose parameter types and return type every region is
/// unnamed already is not eligible for elision.
pub proof fn lemma_unnamed_only_not_eligible(
    d: Declarations,
    decl: FnDecl,
    body: Option<&Body>,
    generics: Generics,
)
    requires
        forall|i: int|
            0 <= i < input_regions(d, decl).lts.len() ==> #[trigger] input_regions(d, decl).lts[i]
                == RefLt::Unnamed,
        forall|i: int|
            0 <= i < output_regions(d, decl).lts.len() ==> #[trigger] output_regions(
                d,
                decl,
            ).lts[i] == RefLt::Unnamed,
    ensures
        !eligible_for_elision(d, decl, body, generics),
{
    let params = generics.params@;
    let from_bounds = named_from_bounds(type_bound_lts(params));
    let input = input_regions(d, decl).lts + from_bounds;
    let output = output_regions(d, decl).lts;
    if eligible_for_elision(d, decl, body, generics) {
        assert(feasible(allowed_set(params), input, output));
        if from_bounds.len() > 0 {
            if has_ident(type_bound_lts(params)) {
                lemma_type_bounds_record_names(d, params);
            }
            lemma_named_from_bounds(type_bound_lts(params), params, 0);
            assert(input[input_regions(d, decl).lts.len() as int] == from_bounds[0]);
            assert(allowed_set(params).contains(input[input_regions(d, decl).lts.len() as int]));
        } else {
            assert(input =~= input_regions(d, decl).lts);
            assert(input[0] == RefLt::Unnamed);
            if output.len() == 0 {
                let i = choose|i: int| 0 <= i < input.len() && (#[trigger] input[i]) is Named;
                assert(input[i] == RefLt::Unnamed);
            }
        }
    }
}

/// A signature whose parameter types and return type hold no region at all
/// is not eligible for elision.
pub proof fn lemma_no_region_not_eligible(
    d: Declarations,
    decl: FnDecl,
    body: Option<&Body>,
    generics: Generics,
)
    requires
        input_regions(d, decl).lts.len() == 0,
        output_regions(d, decl).lts.len() == 0,
    ensures
        !eligible_for_elision(d, decl, body, generics),
{
    lemma_unnamed_only_not_eligible(d, decl, body, generics);
}

/// A walk over a list of types gives up where the walk over one of them does.
pub proof fn lemma_tys_abort(d: Declarations, tys: Seq<Ty>, i: int)
    requires
        0 <= i < tys.len(),
        ty_regions(d, tys[i]).abort,
    ensures
        tys_regions(d, tys).abort,
    decreases tys.len(),
{
    if i < tys.len() - 1 {
        lemma_tys_abort(d, tys.drop_last(), i);
    }
}

/// A signature with a parameter type that cannot be judged is not eligible
/// for elision, whatever else it holds.
pub proof fn lemma_aborted_input_not_eligible(
    d: Declarations,
    decl: FnDecl,
    body: Option<&Body>,
    generics: Generics,
    i: int,
)
    requires
        0 <= i < decl.inputs@.len(),
        ty_regions(d, decl.inputs@[i]).abort,
    ensures
        !eligible_for_elision(d, decl, body, generics),
{
    lemma_tys_abort(d, decl.inputs@, i);
}

/// A signature with a return type that cannot be judged is not eligible for
/// elision, whatever else it holds.
pub proof fn lemma_aborted_output_not_eligible(
    d: Declarations,
    decl: FnDecl,
    body: Option<&Body>,
    generics: Generics,
)
    requires
        decl.output matches Some(ty) && ty_regions(d, ty).abort,
    ensures
        !eligible_for_elision(d, decl, body, generics),
{
}

/// A parameter that is a trait object with a region written on it keeps a
/// signature from being eligible for elision, whatever else it holds.
pub proof fn lemma_trait_object_region_not_eligible(
    d: Declarations,
    decl: FnDecl,
    body: Option<&Body>,
    generics: Generics,
    i: int,
)
    requires
        0 <= i < decl.inputs@.len(),
        decl.inputs@[i] matches Ty::TraitObject(_, lt) && !lt.spec_is_elided(),
    ensures
        !eligible_for_elision(d, decl, body, generics),
{
    lemma_aborted_input_not_eligible(d, decl, body, generics, i);
}

/// A region predicate in the `where` clause keeps a signature from being
/// eligible for elision, whatever else it holds.
pub proof fn lemma_region_predicate_not_eligible(
    d: Declarations,
    decl: FnDecl,
    body: Option<&Body>,
    generics: Generics,
    i: int,
)
    requires
        0 <= i < generics.where_clause.predicates@.len(),
        generics.where_clause.predicates@[i] is RegionPredicate,
    ensures
        !eligible_for_elision(d, decl, body, generics),
{
    assert(predicate_names_region(d, generics.where_clause.predicates@[i]));
}

/// A function that comes out of the expansion of a macro gets an empty
/// report.
pub proof fn lemma_expansion_not_reported(
    d: Declarations,
    decl: FnDecl,
    body: Option<&Body>,
    generics: Generics,
)
    ensures
        report(d, decl, body, generics, true) == (false, Seq::<(Ident, Span)>::empty()),
{
}

/// Whatever `check_signature` may return for one signature, it returns the
/// same again: its report is a function of its arguments.
pub proof fn lemma_check_signature_deterministic(
    d: &Declarations,
    signature: &Signature,
    body: Option<&Body>,
    first: Report,
    second: Report,
)
    requires
        call_ensures(check_signature, (d, signature, body), first),
        call_ensures(check_signature, (d, signature, body), second),
    ensures
        first@ == second@,
{
}

/// Whether the parameter at `i` declares the region `name` at `span`, and no
/// later parameter declares a region of that name.
pub open spec fn is_last_declaration(
    params: Seq<GenericParam>,
    i: int,
    name: Ident,
    span: Span,
) -> bool {
    &&& 0 <= i < params.len()
    &&& params[i].kind == GenericParamKind::Lifetime
    &&& params[i].name == name
    &&& params[i].span == span
    &&& forall|j: int|
        i < j < params.len() ==> !((#[trigger] params[j]).kind == GenericParamKind::Lifetime
            && params[j].name == name)
}

/// Whether `params` declare the region `name`, the declaration that counts
/// standing at `span`.
pub open spec fn declares_at(params: Seq<GenericParam>, name: Ident, span: Span) -> bool {
    exists|i: int| is_last_declaration(params, i, name, span)
}

/// Whether no two entries of `map` have the same name.
pub open spec fn distinct_names(map: Seq<(Ident, Span)>) -> bool {
    forall|a: int, b: int|
        0 <= a < b < map.len() ==> (#[trigger] map[a]).0 != (#[trigger] map[b]).0
}

proof fn lemma_with_region(map: Seq<(Ident, Span)>, name: Ident, span: Span, e: (Ident, Span))
    requires
        distinct_names(map),
    ensures
        distinct_names(with_region(map, name, span)),
        with_region(map, name, span).contains(e) <==> (e == (name, span) || (e.0 != name
            && map.contains(e))),
{
    let new = with_region(map, name, span);
    if has_region(map, name) {
        let i = choose|i: int| 0 <= i < map.len() && (#[trigger] map[i]).0 == name;
        assert forall|a: int| 0 <= a < new.len() implies (#[trigger] new[a]).0 == map[a].0 by {}
        assert(new[i] == (name, span));
        if new.contains(e) {
            let k = choose|k: int| 0 <= k < new.len() && new[k] == e;
            if map[k].0 != name {
                assert(map[k] == e);
            }
        }
        if e.0 != name && map.contains(e) {
            let k = choose|k: int| 0 <= k < map.len() && map[k] == e;
            assert(new[k] == e);
        }
    } else {
        assert(new[map.len() as int] == (name, span));
        if new.contains(e) {
            let k = choose|k: int| 0 <= k < new.len() && new[k] == e;
            if k < map.len() {
                assert(map[k] == e);
            }
        }
        if e.0 != name && map.contains(e) {
            let k = choose|k: int| 0 <= k < map.len() && map[k] == e;
            assert(new[k] == e);
        }
        if map.contains(e) {
            let k = choose|k: int| 0 <= k < map.len() && map[k] == e;
            assert(map[k].0 != name);
        }
    }
}

/// The declared regions are one entry for each name that is declared, with
/// the place of the last declaration of that name.
pub proof fn lemma_declared_regions(params: Seq<GenericParam>, name: Ident, span: Span)
    ensures
        distinct_names(declared_regions(params)),
        declared_regions(params).contains((name, span)) <==> declares_at(params, name, span),
    decreases params.len(),
{
    if params.len() > 0 {
        let rest = params.drop_last();
        let last = params.last();
        let n = params.len() - 1;
        lemma_declared_regions(rest, name, span);
        assert(params[n] == last);
        if last.kind == GenericParamKind::Lifetime {
            lemma_with_region(declared_regions(rest), last.name, last.span, (name, span));
        }
        if declares_at(params, name, span) {
            let i = choose|i: int| is_last_declaration(params, i, name, span);
            if i < n {
                assert(is_last_declaration(rest, i, name, span)) by {
                    assert forall|j: int| i < j < rest.len() implies !((#[trigger] rest[j]).kind
                        == GenericParamKind::Lifetime && rest[j].name == name) by {
                        assert(rest[j] == params[j]);
                    }
                }
                assert(!(last.kind == GenericParamKind::Lifetime && last.name == name));
            }
        }
        if declares_at(rest, name, span) && !(last.kind == GenericParamKind::Lifetime && last.name
            == name) {
            let i = choose|i: int| is_last_declaration(rest, i, name, span);
            assert(is_last_declaration(params, i, name, span)) by {
                assert(rest[i] == params[i]);
                assert forall|j: int| i < j < params.len() implies !((#[trigger] params[j]).kind
                    == GenericParamKind::Lifetime && params[j].name == name) by {
                    if j < n {
                        assert(rest[j] == params[j]);
                    }
                }
            }
        }
        if last.kind == GenericParamKind::Lifetime && last.name == name && last.span == span {
            assert(is_last_declaration(params, n, name, span));
        }
    } else {
        assert(!declared_regions(params).contains((name, span)));
    }
}

/// Striking keeps exactly the entries whose region is not met, and keeps
/// their names apart.
pub proof fn lemma_unused_among(map: Seq<(Ident, Span)>, lts: Seq<Lifetime>, e: (Ident, Span))
    ensures
        unused_among(map, lts).contains(e) <==> map.contains(e) && !uses(lts, e.0),
        distinct_names(map) ==> distinct_names(unused_among(map, lts)),
    decreases map.len(),
{
    let kept = unused_among(map, lts);
    if map.len() > 0 {
        let rest = map.drop_last();
        let last = map.last();
        let sub = unused_among(rest, lts);
        lemma_unused_among(rest, lts, e);
        assert(map[map.len() - 1] == last);
        if kept.contains(e) {
            let k = choose|k: int| 0 <= k < kept.len() && kept[k] == e;
            if k < sub.len() {
                assert(sub[k] == e);
                let m = choose|m: int| 0 <= m < rest.len() && rest[m] == e;
                assert(map[m] == e);
            }
        }
        if map.contains(e) && !uses(lts, e.0) {
            let m = choose|m: int| 0 <= m < map.len() && map[m] == e;
            if m < rest.len() {
                assert(rest[m] == e);
                let k = choose|k: int| 0 <= k < sub.len() && sub[k] == e;
                assert(kept[k] == e);
            } else {
                assert(kept[sub.len() as int] == e);
            }
        }
        if distinct_names(map) {
            assert(distinct_names(rest)) by {
                assert forall|a: int, b: int| 0 <= a < b < rest.len() implies (#[trigger] rest[a]).0
                    != (#[trigger] rest[b]).0 by {
                    assert(rest[a] == map[a] && rest[b] == map[b]);
                }
            }
            assert forall|a: int, b: int| 0 <= a < b < kept.len() implies (#[trigger] kept[a]).0
                != (#[trigger] kept[b]).0 by {
                if b < sub.len() {
                    assert(sub[a] == kept[a] && sub[b] == kept[b]);
                } else {
                    assert(sub[a] == kept[a]);
                    lemma_unused_among(rest, lts, sub[a]);
                    assert(sub.contains(sub[a]));
                    let m = choose|m: int| 0 <= m < rest.len() && rest[m] == sub[a];
                    assert(map[m] == sub[a]);
                }
            }
        }
    } else {
        assert(!kept.contains(e));
    }
}

/// A region is reported as unused, with a place, exactly when the signature
/// declares it, the declaration that counts standing at that place, and no
/// annotation outside the declarations of regions names it. No region is
/// reported twice.
pub proof fn lemma_unused_regions(func: FnDecl, generics: Generics, name: Ident, span: Span)
    ensures
        unused_regions(func, generics).contains((name, span)) <==> declares_at(
            generics.params@,
            name,
            span,
        ) && !uses(signature_lifetimes(func, generics), name),
        distinct_names(unused_regions(func, generics)),
{
    lemma_declared_regions(generics.params@, name, span);
    lemma_unused_among(
        declared_regions(generics.params@),
        signature_lifetimes(func, generics),
        (name, span),
    );
}

} // verus!
