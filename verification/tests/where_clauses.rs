use lifetime_lints::region::{Lifetime, Name, Span};
use lifetime_lints::signature::{
    Declaration, Declarations, GenericArg, GenericBound, GenericParam, GenericParamKind, Path,
    PolyTraitRef, Ty, WhereClause, WherePredicate,
};
use lifetime_lints::where_clause::has_where_lifetimes;

const F: u32 = 1;
const TRAIT: u32 = 2;
const HOLDER: u32 = 3;

fn table() -> Declarations {
    Declarations {
        entries: vec![
            Declaration { def: F, generics: 0 },
            Declaration { def: TRAIT, generics: 3 },
            Declaration { def: HOLDER, generics: 1 },
        ],
    }
}

fn at(name: Name) -> Lifetime {
    Lifetime { name }
}

fn f_ty() -> Ty {
    Ty::Path(Path { def: F, args: vec![] })
}

fn trait_bound(binder: Vec<GenericParam>, args: Vec<GenericArg>) -> GenericBound {
    GenericBound::Trait(PolyTraitRef {
        bound_generic_params: binder,
        trait_ref: Path { def: TRAIT, args },
    })
}

fn region(name: u32, bounds: Vec<GenericBound>) -> GenericParam {
    GenericParam { name, span: Span { lo: 0, hi: 2 }, kind: GenericParamKind::Lifetime, bounds }
}

fn bound_predicate(
    bound_generic_params: Vec<GenericParam>,
    bounded_ty: Ty,
    bounds: Vec<GenericBound>,
) -> WherePredicate {
    WherePredicate::BoundPredicate { bound_generic_params, bounded_ty, bounds }
}

fn scan(predicates: Vec<WherePredicate>) -> bool {
    has_where_lifetimes(&table(), &WhereClause { predicates })
}

#[test]
fn empty_clause_mentions_no_region() {
    assert!(!scan(vec![]));
}

#[test]
fn region_predicate_is_a_mention() {
    assert!(scan(vec![WherePredicate::RegionPredicate {
        lifetime: at(Name::Ident(1)),
        bounds: vec![]
    }]));
    assert!(scan(vec![
        bound_predicate(vec![], f_ty(), vec![trait_bound(vec![], vec![])]),
        WherePredicate::RegionPredicate {
            lifetime: at(Name::Ident(1)),
            bounds: vec![GenericBound::Outlives(at(Name::Static))]
        },
    ]));
}

#[test]
fn plain_bound_predicate_is_no_mention() {
    // F: Trait
    assert!(!scan(vec![bound_predicate(vec![], f_ty(), vec![trait_bound(vec![], vec![])])]));
    // F: Trait<'static, '_>
    assert!(!scan(vec![bound_predicate(
        vec![],
        f_ty(),
        vec![trait_bound(
            vec![],
            vec![GenericArg::Lifetime(at(Name::Static)), GenericArg::Lifetime(at(Name::Underscore))]
        )]
    )]));
}

#[test]
fn bounded_type_with_a_region_is_a_mention() {
    // &'a F: Trait
    assert!(scan(vec![bound_predicate(
        vec![],
        Ty::Rptr(at(Name::Ident(1)), Box::new(f_ty())),
        vec![trait_bound(vec![], vec![])]
    )]));
    // &F: Trait
    assert!(scan(vec![bound_predicate(
        vec![],
        Ty::Rptr(at(Name::Empty), Box::new(f_ty())),
        vec![]
    )]));
    // Holder: Trait, where Holder has a generic parameter
    assert!(scan(vec![bound_predicate(
        vec![],
        Ty::Path(Path { def: HOLDER, args: vec![] }),
        vec![]
    )]));
    // for<'a> &'a F: Trait: a region of the predicate's own is one as well
    assert!(scan(vec![bound_predicate(
        vec![region(1, vec![])],
        Ty::Rptr(at(Name::Ident(1)), Box::new(f_ty())),
        vec![]
    )]));
}

#[test]
fn region_bound_by_the_predicate_itself_is_no_mention() {
    // for<'a> F: Trait<'a>
    assert!(!scan(vec![bound_predicate(
        vec![region(1, vec![])],
        f_ty(),
        vec![trait_bound(vec![], vec![GenericArg::Lifetime(at(Name::Ident(1)))])]
    )]));
}

#[test]
fn region_from_outside_the_predicate_is_a_mention() {
    // F: Trait<'a>
    assert!(scan(vec![bound_predicate(
        vec![],
        f_ty(),
        vec![trait_bound(vec![], vec![GenericArg::Lifetime(at(Name::Ident(1)))])]
    )]));
    // for<'a> F: Trait<'a, 'b>
    assert!(scan(vec![bound_predicate(
        vec![region(1, vec![])],
        f_ty(),
        vec![trait_bound(
            vec![],
            vec![GenericArg::Lifetime(at(Name::Ident(1))), GenericArg::Lifetime(at(Name::Ident(2)))]
        )]
    )]));
    // F: 'a
    assert!(scan(vec![bound_predicate(
        vec![],
        f_ty(),
        vec![GenericBound::Outlives(at(Name::Ident(1)))]
    )]));
    // F: for<'a> Trait<'a>: the binder of a bound allows nothing
    assert!(scan(vec![bound_predicate(
        vec![],
        f_ty(),
        vec![trait_bound(
            vec![region(1, vec![])],
            vec![GenericArg::Lifetime(at(Name::Ident(1)))]
        )]
    )]));
}

#[test]
fn region_bound_with_a_bound_of_its_own_is_a_mention() {
    // for<'a: 'static> F: Trait<'a>
    assert!(scan(vec![bound_predicate(
        vec![region(1, vec![GenericBound::Outlives(at(Name::Static))])],
        f_ty(),
        vec![trait_bound(vec![], vec![GenericArg::Lifetime(at(Name::Ident(1)))])]
    )]));
}

#[test]
fn later_predicates_are_looked_at() {
    let quiet = || bound_predicate(vec![], f_ty(), vec![trait_bound(vec![], vec![])]);
    let loud = bound_predicate(
        vec![],
        f_ty(),
        vec![trait_bound(vec![], vec![GenericArg::Lifetime(at(Name::Ident(1)))])],
    );
    assert!(!scan(vec![quiet(), quiet()]));
    assert!(scan(vec![quiet(), quiet(), loud]));
    // a bound that cannot be judged does not end the scan
    let object = Ty::TraitObject(vec![], at(Name::Ident(4)));
    let opaque = bound_predicate(
        vec![],
        f_ty(),
        vec![trait_bound(vec![], vec![GenericArg::Type(object)])],
    );
    let loud = WherePredicate::RegionPredicate { lifetime: at(Name::Ident(1)), bounds: vec![] };
    assert!(scan(vec![opaque, loud]));
}

#[test]
fn equality_predicate_with_a_region_is_a_mention() {
    let plain = || f_ty();
    let with_region = || Ty::Rptr(at(Name::Static), Box::new(f_ty()));
    assert!(!scan(vec![WherePredicate::EqPredicate { lhs_ty: plain(), rhs_ty: plain() }]));
    assert!(scan(vec![WherePredicate::EqPredicate { lhs_ty: with_region(), rhs_ty: plain() }]));
    assert!(scan(vec![WherePredicate::EqPredicate { lhs_ty: plain(), rhs_ty: with_region() }]));
}
