use lifetime_lints::region::{Lifetime, Name, Span};
use lifetime_lints::signature::{
    FnDecl, GenericArg, GenericBound, GenericParam, GenericParamKind, Generics, Path,
    PolyTraitRef, Ty, WhereClause, WherePredicate,
};
use lifetime_lints::unused::{report_extra_lifetimes, LifetimeChecker};

fn at(name: Name) -> Lifetime {
    Lifetime { name }
}

fn named(i: u32) -> Lifetime {
    at(Name::Ident(i))
}

fn sp(lo: u32) -> Span {
    Span { lo, hi: lo + 2 }
}

fn region(name: u32, bounds: Vec<GenericBound>) -> GenericParam {
    GenericParam { name, span: sp(name * 10), kind: GenericParamKind::Lifetime, bounds }
}

fn type_param(name: u32, bounds: Vec<GenericBound>) -> GenericParam {
    GenericParam { name, span: sp(name * 10), kind: GenericParamKind::Type, bounds }
}

fn unit() -> Ty {
    Ty::Path(Path { def: 0, args: vec![] })
}

fn trait_with(args: Vec<GenericArg>) -> GenericBound {
    GenericBound::Trait(PolyTraitRef {
        bound_generic_params: vec![],
        trait_ref: Path { def: 1, args },
    })
}

fn findings(
    params: Vec<GenericParam>,
    inputs: Vec<Ty>,
    output: Option<Ty>,
    predicates: Vec<WherePredicate>,
) -> Vec<(u32, Span)> {
    report_extra_lifetimes(
        &FnDecl { inputs, output },
        &Generics { params, where_clause: WhereClause { predicates } },
    )
}

#[test]
fn insert_adds_or_replaces() {
    let mut checker = LifetimeChecker { map: vec![] };
    checker.insert(1, sp(0));
    checker.insert(2, sp(5));
    assert_eq!(checker.map, vec![(1, sp(0)), (2, sp(5))]);
    checker.insert(1, sp(9));
    assert_eq!(checker.map, vec![(1, sp(9)), (2, sp(5))]);
    checker.insert(3, sp(0));
    assert_eq!(checker.map, vec![(1, sp(9)), (2, sp(5)), (3, sp(0))]);
}

#[test]
fn visit_lifetime_strikes_the_region_named() {
    let mut checker = LifetimeChecker { map: vec![(1, sp(0)), (2, sp(5)), (3, sp(9))] };
    checker.visit_lifetime(&named(2));
    assert_eq!(checker.map, vec![(1, sp(0)), (3, sp(9))]);
    checker.visit_lifetime(&named(2));
    checker.visit_lifetime(&at(Name::Static));
    checker.visit_lifetime(&at(Name::Empty));
    checker.visit_lifetime(&at(Name::Underscore));
    checker.visit_lifetime(&named(7));
    assert_eq!(checker.map, vec![(1, sp(0)), (3, sp(9))]);
    checker.visit_lifetime(&named(3));
    checker.visit_lifetime(&named(1));
    assert_eq!(checker.map, vec![]);
}

#[test]
fn nothing_declared_nothing_found() {
    assert_eq!(findings(vec![], vec![Ty::Rptr(named(1), Box::new(unit()))], None, vec![]), vec![]);
    assert_eq!(findings(vec![type_param(1, vec![])], vec![], None, vec![]), vec![]);
}

#[test]
fn unused_regions_come_in_declaration_order() {
    let params = vec![region(3, vec![]), region(1, vec![]), type_param(4, vec![]), region(2, vec![])];
    assert_eq!(
        findings(params, vec![unit()], None, vec![]),
        vec![(3, sp(30)), (1, sp(10)), (2, sp(20))]
    );
    let params = vec![region(3, vec![]), region(1, vec![]), region(2, vec![])];
    assert_eq!(
        findings(params, vec![Ty::Rptr(named(1), Box::new(unit()))], None, vec![]),
        vec![(3, sp(30)), (2, sp(20))]
    );
}

#[test]
fn use_in_any_type_position_counts() {
    let params = || vec![region(1, vec![])];
    // parameter, nested
    let nested = Ty::Other(vec![GenericArg::Type(Ty::Path(Path {
        def: 5,
        args: vec![GenericArg::Type(unit()), GenericArg::Lifetime(named(1))],
    }))]);
    assert_eq!(findings(params(), vec![unit(), nested], None, vec![]), vec![]);
    // return type
    assert_eq!(
        findings(params(), vec![], Some(Ty::Rptr(named(1), Box::new(unit()))), vec![]),
        vec![]
    );
    // region of a trait object
    let object = Ty::TraitObject(vec![], named(1));
    assert_eq!(findings(params(), vec![object], None, vec![]), vec![]);
    // bound of a trait object
    let object = Ty::TraitObject(
        vec![PolyTraitRef {
            bound_generic_params: vec![],
            trait_ref: Path { def: 1, args: vec![GenericArg::Lifetime(named(1))] },
        }],
        at(Name::Empty),
    );
    assert_eq!(findings(params(), vec![object], None, vec![]), vec![]);
    // arguments and bounds of an opaque type
    let opaque = Ty::Opaque(Path { def: 2, args: vec![GenericArg::Lifetime(named(1))] }, vec![]);
    assert_eq!(findings(params(), vec![], Some(opaque), vec![]), vec![]);
    let opaque = Ty::Opaque(Path { def: 2, args: vec![] }, vec![GenericBound::Outlives(named(1))]);
    assert_eq!(findings(params(), vec![], Some(opaque), vec![]), vec![]);
    // another region does not count
    assert_eq!(
        findings(params(), vec![Ty::Rptr(named(2), Box::new(unit()))], None, vec![]),
        vec![(1, sp(10))]
    );
}

#[test]
fn use_in_the_bound_of_a_type_parameter_counts() {
    let params = vec![
        region(1, vec![]),
        region(2, vec![]),
        type_param(3, vec![trait_with(vec![GenericArg::Lifetime(named(1))])]),
        type_param(4, vec![GenericBound::Outlives(named(2))]),
    ];
    assert_eq!(findings(params, vec![], None, vec![]), vec![]);
}

#[test]
fn use_in_the_declaration_list_of_regions_does_not_count() {
    // fn f<'a, 'b: 'a>()
    let params = vec![region(1, vec![]), region(2, vec![GenericBound::Outlives(named(1))])];
    assert_eq!(findings(params, vec![], None, vec![]), vec![(1, sp(10)), (2, sp(20))]);
    // the binder of a bound is a declaration list as well
    let binder = PolyTraitRef {
        bound_generic_params: vec![region(9, vec![GenericBound::Outlives(named(1))])],
        trait_ref: Path { def: 1, args: vec![] },
    };
    let params = vec![region(1, vec![]), type_param(3, vec![GenericBound::Trait(binder)])];
    assert_eq!(findings(params, vec![], None, vec![]), vec![(1, sp(10))]);
}

#[test]
fn use_in_the_where_clause_counts() {
    let params = || vec![region(1, vec![]), region(2, vec![]), region(3, vec![])];
    let region_predicate = WherePredicate::RegionPredicate {
        lifetime: named(1),
        bounds: vec![GenericBound::Outlives(named(2))],
    };
    assert_eq!(findings(params(), vec![], None, vec![region_predicate]), vec![(3, sp(30))]);
    let bound_predicate = WherePredicate::BoundPredicate {
        bound_generic_params: vec![type_param(8, vec![GenericBound::Outlives(named(3))])],
        bounded_ty: Ty::Rptr(named(1), Box::new(unit())),
        bounds: vec![trait_with(vec![GenericArg::Lifetime(named(2))])],
    };
    assert_eq!(findings(params(), vec![], None, vec![bound_predicate]), vec![]);
    let eq_predicate = WherePredicate::EqPredicate {
        lhs_ty: Ty::Rptr(named(3), Box::new(unit())),
        rhs_ty: Ty::Rptr(named(1), Box::new(unit())),
    };
    assert_eq!(findings(params(), vec![], None, vec![eq_predicate]), vec![(2, sp(20))]);
}

#[test]
fn later_declaration_of_a_name_gives_the_location() {
    let first = GenericParam {
        name: 1,
        span: sp(100),
        kind: GenericParamKind::Lifetime,
        bounds: vec![],
    };
    let second = GenericParam {
        name: 1,
        span: sp(200),
        kind: GenericParamKind::Lifetime,
        bounds: vec![],
    };
    assert_eq!(
        findings(vec![first, region(2, vec![]), second], vec![], None, vec![]),
        vec![(1, sp(200)), (2, sp(20))]
    );
}

#[test]
fn type_parameter_of_the_same_name_is_no_declaration() {
    let params = vec![type_param(1, vec![]), region(2, vec![])];
    assert_eq!(
        findings(params, vec![Ty::Rptr(named(2), Box::new(unit()))], None, vec![]),
        vec![]
    );
}

#[test]
fn checker_walks_strike_what_they_meet() {
    let mut checker = LifetimeChecker { map: vec![(1, sp(0)), (2, sp(0)), (3, sp(0)), (4, sp(0))] };
    checker.visit_ty(&Ty::Rptr(named(1), Box::new(unit())));
    assert_eq!(checker.map, vec![(2, sp(0)), (3, sp(0)), (4, sp(0))]);
    checker.visit_generic_param(&region(9, vec![GenericBound::Outlives(named(2))]));
    assert_eq!(checker.map, vec![(2, sp(0)), (3, sp(0)), (4, sp(0))]);
    checker.visit_generic_param(&type_param(9, vec![GenericBound::Outlives(named(2))]));
    assert_eq!(checker.map, vec![(3, sp(0)), (4, sp(0))]);
    checker.visit_fn_decl(&FnDecl { inputs: vec![unit()], output: Some(Ty::Other(vec![
        GenericArg::Lifetime(named(4)),
    ])) });
    assert_eq!(checker.map, vec![(3, sp(0))]);
    checker.visit_generics(&Generics {
        params: vec![region(3, vec![])],
        where_clause: WhereClause {
            predicates: vec![WherePredicate::RegionPredicate { lifetime: named(3), bounds: vec![] }],
        },
    });
    assert_eq!(checker.map, vec![]);
}
