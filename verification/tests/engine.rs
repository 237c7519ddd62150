use lifetime_lints::allowed::{allowed_lts_from, contains};
use lifetime_lints::body::BodyLifetimeChecker;
use lifetime_lints::elision::{
    all_allowed, could_use_elision, elision_feasible, lts_from_bounds, unique_lifetimes,
    unnamed_and_static,
};
use lifetime_lints::region::{Lifetime, Name, RefLt, Span};
use lifetime_lints::signature::{
    Body, Declaration, Declarations, FnDecl, GenericBound, GenericParam, GenericParamKind, Path,
    Ty,
};

fn n(i: u32) -> RefLt {
    RefLt::Named(Name::Ident(i))
}

fn at(name: Name) -> Lifetime {
    Lifetime { name }
}

fn param(name: u32, kind: GenericParamKind, bounds: Vec<GenericBound>) -> GenericParam {
    GenericParam { name, span: Span { lo: name, hi: name + 1 }, kind, bounds }
}

fn everything() -> Vec<RefLt> {
    vec![n(1), n(2), n(3), RefLt::Unnamed, RefLt::Static]
}

#[test]
fn allowed_regions_are_the_unbounded_declared_ones_and_the_two_fixed() {
    let params = vec![
        param(1, GenericParamKind::Lifetime, vec![]),
        param(2, GenericParamKind::Type, vec![]),
        param(3, GenericParamKind::Lifetime, vec![GenericBound::Outlives(at(Name::Ident(1)))]),
        param(4, GenericParamKind::Lifetime, vec![]),
    ];
    assert_eq!(allowed_lts_from(&params), vec![n(1), n(4), RefLt::Unnamed, RefLt::Static]);
    assert_eq!(allowed_lts_from(&[]), vec![RefLt::Unnamed, RefLt::Static]);
}

#[test]
fn contains_finds_equal_descriptors_only() {
    let lts = vec![n(1), RefLt::Static];
    assert!(contains(&lts, &n(1)));
    assert!(contains(&lts, &RefLt::Static));
    assert!(!contains(&lts, &n(2)));
    assert!(!contains(&lts, &RefLt::Unnamed));
    assert!(!contains(&lts, &RefLt::Named(Name::Static)));
    assert!(!contains(&[], &RefLt::Unnamed));
}

#[test]
fn bound_regions_are_added_as_named_unless_static() {
    let bounds = vec![
        at(Name::Static),
        at(Name::Underscore),
        at(Name::Ident(7)),
        at(Name::Static),
        at(Name::Empty),
    ];
    assert_eq!(
        lts_from_bounds(vec![RefLt::Unnamed], &bounds),
        vec![
            RefLt::Unnamed,
            RefLt::Named(Name::Underscore),
            RefLt::Named(Name::Ident(7)),
            RefLt::Named(Name::Empty),
        ]
    );
    assert_eq!(lts_from_bounds(vec![n(1)], &[]), vec![n(1)]);
    assert_eq!(lts_from_bounds(vec![], &[at(Name::Static)]), vec![]);
}

#[test]
fn unique_lifetimes_counts_distinct_values() {
    assert_eq!(unique_lifetimes(&[]), 0);
    assert_eq!(unique_lifetimes(&[n(1)]), 1);
    assert_eq!(unique_lifetimes(&[n(1), n(1), n(1)]), 1);
    assert_eq!(unique_lifetimes(&[n(1), RefLt::Unnamed, n(1), RefLt::Static, RefLt::Unnamed]), 3);
    assert_eq!(unique_lifetimes(&[n(1), n(2), RefLt::Named(Name::Empty)]), 3);
}

#[test]
fn all_allowed_and_unnamed_and_static() {
    assert!(all_allowed(&everything(), &[n(1), RefLt::Static]));
    assert!(all_allowed(&everything(), &[]));
    assert!(!all_allowed(&everything(), &[n(1), n(9)]));
    assert!(!all_allowed(&[], &[RefLt::Unnamed]));
    assert!(unnamed_and_static(&[RefLt::Unnamed, RefLt::Static]));
    assert!(unnamed_and_static(&[]));
    assert!(!unnamed_and_static(&[RefLt::Unnamed, n(1)]));
}

#[test]
fn feasible_for_one_named_input_and_the_same_output() {
    assert!(elision_feasible(&everything(), &[n(1)], &[n(1)]));
    assert!(elision_feasible(&everything(), &[n(1)], &[n(1), n(1)]));
    assert!(elision_feasible(&everything(), &[n(1)], &[RefLt::Unnamed]));
}

#[test]
fn feasible_for_distinct_inputs_without_output() {
    assert!(elision_feasible(&everything(), &[n(1), n(2)], &[]));
    assert!(elision_feasible(&everything(), &[n(1)], &[]));
    assert!(elision_feasible(&everything(), &[n(1), RefLt::Unnamed, RefLt::Static], &[]));
}

#[test]
fn not_feasible_with_repeated_inputs() {
    assert!(!elision_feasible(&everything(), &[n(1), n(1)], &[n(1)]));
    assert!(!elision_feasible(&everything(), &[n(1), n(1)], &[]));
    assert!(!elision_feasible(&everything(), &[n(1), RefLt::Unnamed, RefLt::Unnamed], &[]));
    assert!(!elision_feasible(&everything(), &[n(1), RefLt::Static, RefLt::Static], &[]));
}

#[test]
fn not_feasible_with_a_region_that_is_not_allowed() {
    let allowed = vec![n(1), RefLt::Unnamed, RefLt::Static];
    assert!(!elision_feasible(&allowed, &[n(2)], &[]));
    assert!(!elision_feasible(&allowed, &[n(1), n(2)], &[]));
    assert!(!elision_feasible(&allowed, &[n(1)], &[n(2)]));
    assert!(!elision_feasible(&allowed, &[RefLt::Named(Name::Underscore)], &[]));
    assert!(elision_feasible(&allowed, &[n(1)], &[]));
}

#[test]
fn not_feasible_without_input_regions() {
    assert!(!elision_feasible(&everything(), &[], &[]));
    assert!(!elision_feasible(&everything(), &[], &[n(1)]));
    assert!(!elision_feasible(&everything(), &[], &[RefLt::Unnamed]));
}

#[test]
fn not_feasible_when_nothing_is_named() {
    assert!(!elision_feasible(&everything(), &[RefLt::Unnamed], &[]));
    assert!(!elision_feasible(&everything(), &[RefLt::Static], &[]));
    assert!(!elision_feasible(&everything(), &[RefLt::Unnamed, RefLt::Static], &[]));
    assert!(!elision_feasible(&everything(), &[RefLt::Unnamed], &[RefLt::Unnamed]));
    assert!(!elision_feasible(&everything(), &[RefLt::Static], &[RefLt::Static]));
    assert!(!elision_feasible(&everything(), &[RefLt::Static], &[RefLt::Unnamed]));
}

#[test]
fn not_feasible_with_unsuitable_outputs() {
    assert!(!elision_feasible(&everything(), &[n(1)], &[n(1), RefLt::Unnamed]));
    assert!(!elision_feasible(&everything(), &[n(1)], &[n(1), n(2)]));
    assert!(!elision_feasible(&everything(), &[n(1)], &[n(2)]));
    assert!(!elision_feasible(&everything(), &[n(1)], &[RefLt::Static]));
    assert!(!elision_feasible(&everything(), &[n(1), n(2)], &[n(1)]));
    assert!(!elision_feasible(&everything(), &[n(1), n(2)], &[RefLt::Unnamed]));
}

#[test]
fn body_checker_notes_named_regions() {
    let mut checker = BodyLifetimeChecker { lifetimes_used_in_body: false };
    checker.visit_lifetime(&at(Name::Empty));
    assert!(!checker.lifetimes_used_in_body);
    checker.visit_lifetime(&at(Name::Static));
    assert!(!checker.lifetimes_used_in_body);
    checker.visit_lifetime(&at(Name::Ident(1)));
    assert!(checker.lifetimes_used_in_body);
    checker.visit_lifetime(&at(Name::Empty));
    assert!(checker.lifetimes_used_in_body);

    let mut checker = BodyLifetimeChecker { lifetimes_used_in_body: false };
    checker.visit_lifetime(&at(Name::Underscore));
    assert!(checker.lifetimes_used_in_body);
}

#[test]
fn body_checker_walks_the_whole_tree() {
    let leaf = |lifetimes: Vec<Lifetime>| Body { lifetimes, children: vec![] };
    let quiet = Body {
        lifetimes: vec![at(Name::Static)],
        children: vec![leaf(vec![]), leaf(vec![at(Name::Empty), at(Name::Static)])],
    };
    let mut checker = BodyLifetimeChecker { lifetimes_used_in_body: false };
    checker.visit_body(&quiet);
    assert!(!checker.lifetimes_used_in_body);

    let deep = Body {
        lifetimes: vec![],
        children: vec![
            leaf(vec![]),
            Body { lifetimes: vec![], children: vec![leaf(vec![at(Name::Ident(3))])] },
        ],
    };
    checker.visit_body(&deep);
    assert!(checker.lifetimes_used_in_body);
    checker.visit_body(&quiet);
    assert!(checker.lifetimes_used_in_body);
}

#[test]
fn could_use_elision_joins_walks_bounds_and_body() {
    let decls = Declarations { entries: vec![Declaration { def: 1, generics: 0 }] };
    let unit = || Ty::Path(Path { def: 1, args: vec![] });
    let params = vec![
        param(1, GenericParamKind::Lifetime, vec![]),
        param(2, GenericParamKind::Lifetime, vec![]),
    ];
    let func = FnDecl {
        inputs: vec![Ty::Rptr(at(Name::Ident(1)), Box::new(unit())), unit()],
        output: Some(Ty::Rptr(at(Name::Ident(1)), Box::new(unit()))),
    };
    assert!(could_use_elision(&decls, &func, None, &params, vec![]));
    assert!(could_use_elision(&decls, &func, None, &params, vec![at(Name::Static)]));
    // a second input region, from a bound
    assert!(!could_use_elision(&decls, &func, None, &params, vec![at(Name::Ident(2))]));
    assert!(!could_use_elision(&decls, &func, None, &params, vec![at(Name::Underscore)]));
    // the region is not declared here
    assert!(!could_use_elision(&decls, &func, None, &[], vec![]));
    // the body names a region
    let body = Body { lifetimes: vec![at(Name::Ident(1))], children: vec![] };
    assert!(!could_use_elision(&decls, &func, Some(&body), &params, vec![]));
    let body = Body { lifetimes: vec![at(Name::Static)], children: vec![] };
    assert!(could_use_elision(&decls, &func, Some(&body), &params, vec![]));
    // the return type cannot be judged
    let func = FnDecl {
        inputs: vec![Ty::Rptr(at(Name::Ident(1)), Box::new(unit()))],
        output: Some(Ty::TraitObject(vec![], at(Name::Ident(1)))),
    };
    assert!(!could_use_elision(&decls, &func, None, &params, vec![]));
    // without the return type, a bound region next to the input one
    let func =
        FnDecl { inputs: vec![Ty::Rptr(at(Name::Ident(1)), Box::new(unit()))], output: None };
    assert!(could_use_elision(&decls, &func, None, &params, vec![at(Name::Ident(2))]));
    assert!(!could_use_elision(&decls, &func, None, &params, vec![at(Name::Ident(1))]));
}
