//! Finds declared regions that the signature never uses.

use vstd::prelude::*;
use crate::region::{Ident, Lifetime, Name, Span};
use crate::signature::{
    FnDecl, GenericArg, GenericBound, GenericParam, GenericParamKind, Generics, Path,
    PolyTraitRef, Ty, WherePredicate,
};

verus! {

/// The annotations in a type, in the order of a walk.
pub open spec fn ty_lifetimes(ty: Ty) -> Seq<Lifetime>
    decreases ty,
{
    match ty {
        Ty::Rptr(lt, inner) => seq![lt] + ty_lifetimes(*inner),
        Ty::Path(path) => path_lifetimes(path),
        Ty::Opaque(path, bounds) => path_lifetimes(path) + bounds_lifetimes(bounds@),
        Ty::TraitObject(bounds, lt) => trait_refs_lifetimes(bounds@) + seq![lt],
        Ty::Other(children) => args_lifetimes(children@),
    }
}

/// The annotations in a list of types.
pub open spec fn tys_lifetimes(tys: Seq<Ty>) -> Seq<Lifetime>
    decreases tys,
{
    if tys.len() == 0 {
        Seq::empty()
    } else {
        tys_lifetimes(tys.drop_last()) + ty_lifetimes(tys.last())
    }
}

/// The annotations in the generic arguments of a path.
pub open spec fn path_lifetimes(path: Path) -> Seq<Lifetime>
    decreases path,
{
    args_lifetimes(path.args@)
}

/// The annotations in a list of generic arguments.
pub open spec fn args_lifetimes(args: Seq<GenericArg>) -> Seq<Lifetime>
    decreases args,
{
    if args.len() == 0 {
        Seq::empty()
    } else {
        args_lifetimes(args.drop_last()) + arg_lifetimes(args.last())
    }
}

/// The annotations in one generic argument.
pub open spec fn arg_lifetimes(arg: GenericArg) -> Seq<Lifetime>
    decreases arg,
{
    match arg {
        GenericArg::Lifetime(lt) => seq![lt],
        GenericArg::Type(ty) => ty_lifetimes(ty),
    }
}

/// The annotations in a list of trait bounds.
pub open spec fn trait_refs_lifetimes(refs: Seq<PolyTraitRef>) -> Seq<Lifetime>
    decreases refs,
{
    if refs.len() == 0 {
        Seq::empty()
    } else {
        trait_refs_lifetimes(refs.drop_last()) + trait_ref_lifetimes(refs.last())
    }
}

/// The annotations in a trait bound: those of its binder, then those of its
/// path.
pub open spec fn trait_ref_lifetimes(r: PolyTraitRef) -> Seq<Lifetime>
    decreases r,
{
    params_lifetimes(r.bound_generic_params@) + path_lifetimes(r.trait_ref)
}

/// The annotations that count as uses in a list of generic parameters.
pub open spec fn params_lifetimes(params: Seq<GenericParam>) -> Seq<Lifetime>
    decreases params,
{
    if params.len() == 0 {
        Seq::empty()
    } else {
        params_lifetimes(params.drop_last()) + param_lifetimes(params.last())
    }
}

/// The annotations that count as uses in the declaration of a generic
/// parameter: those in the bounds of a type parameter. The declaration of a
/// region, with its bounds, uses nothing.
pub open spec fn param_lifetimes(param: GenericParam) -> Seq<Lifetime>
    decreases param,
{
    if param.kind == GenericParamKind::Type {
        bounds_lifetimes(param.bounds@)
    } else {
        Seq::empty()
    }
}

/// The annotations in a bound list.
pub open spec fn bounds_lifetimes(bounds: Seq<GenericBound>) -> Seq<Lifetime>
    decreases bounds,
{
    if bounds.len() == 0 {
        Seq::empty()
    } else {
        bounds_lifetimes(bounds.drop_last()) + bound_lifetimes(bounds.last())
    }
}

/// The annotations in one bound.
pub open spec fn bound_lifetimes(bound: GenericBound) -> Seq<Lifetime>
    decreases bound,
{
    match bound {
        GenericBound::Trait(r) => trait_ref_lifetimes(r),
        GenericBound::Outlives(lt) => seq![lt],
    }
}

/// The annotations in one predicate of a `where` clause.
pub open spec fn predicate_lifetimes(pred: WherePredicate) -> Seq<Lifetime> {
    match pred {
        WherePredicate::RegionPredicate { lifetime, bounds } => seq![lifetime] + bounds_lifetimes(
            bounds@,
        ),
        WherePredicate::BoundPredicate { bound_generic_params, bounded_ty, bounds } => ty_lifetimes(
            bounded_ty,
        ) + bounds_lifetimes(bounds@) + params_lifetimes(bound_generic_params@),
        WherePredicate::EqPredicate { lhs_ty, rhs_ty } => ty_lifetimes(lhs_ty) + ty_lifetimes(
            rhs_ty,
        ),
    }
}

/// The annotations in the predicates of a `where` clause.
pub open spec fn predicates_lifetimes(preds: Seq<WherePredicate>) -> Seq<Lifetime>
    decreases preds.len(),
{
    if preds.len() == 0 {
        Seq::empty()
    } else {
        predicates_lifetimes(preds.drop_last()) + predicate_lifetimes(preds.last())
    }
}

/// The annotations that count as uses in generic parameters and `where`
/// clause.
pub open spec fn generics_lifetimes(generics: Generics) -> Seq<Lifetime> {
    params_lifetimes(generics.params@) + predicates_lifetimes(generics.where_clause.predicates@)
}

/// The annotations in parameter types and return type.
pub open spec fn decl_lifetimes(func: FnDecl) -> Seq<Lifetime> {
    tys_lifetimes(func.inputs@) + match func.output {
        Some(ty) => ty_lifetimes(ty),
        None => Seq::empty(),
    }
}

/// Every annotation of a signature that counts as a use of a region.
pub open spec fn signature_lifetimes(func: FnDecl, generics: Generics) -> Seq<Lifetime> {
    generics_lifetimes(generics) + decl_lifetimes(func)
}

/// Whether one of `lts` is the region `name`.
pub open spec fn uses(lts: Seq<Lifetime>, name: Ident) -> bool {
    lts.contains(Lifetime { name: Name::Ident(name) })
}

/// The entries of `map`, in order, whose region none of `lts` is.
pub open spec fn unused_among(map: Seq<(Ident, Span)>, lts: Seq<Lifetime>) -> Seq<(Ident, Span)>
    decreases map.len(),
{
    if map.len() == 0 {
        Seq::empty()
    } else {
        let rest = unused_among(map.drop_last(), lts);
        if uses(lts, map.last().0) {
            rest
        } else {
            rest.push(map.last())
        }
    }
}

/// Whether `map` has an entry for `name`.
pub open spec fn has_region(map: Seq<(Ident, Span)>, name: Ident) -> bool {
    exists|i: int| 0 <= i < map.len() && (#[trigger] map[i]).0 == name
}

/// `map` with `name` mapped to `span`: in place where `map` has the name
/// already, else at the end.
pub open spec fn with_region(map: Seq<(Ident, Span)>, name: Ident, span: Span) -> Seq<
    (Ident, Span),
> {
    if has_region(map, name) {
        Seq::new(
            map.len(),
            |i: int|
                if map[i].0 == name {
                    (name, span)
                } else {
                    map[i]
                },
        )
    } else {
        map.push((name, span))
    }
}

/// The regions that `params` declare, each with the place of its
/// declaration; of two declarations of one name the later one counts.
pub open spec fn declared_regions(params: Seq<GenericParam>) -> Seq<(Ident, Span)>
    decreases params.len(),
{
    if params.len() == 0 {
        Seq::empty()
    } else {
        let rest = declared_regions(params.drop_last());
        let last = params.last();
        if last.kind == GenericParamKind::Lifetime {
            with_region(rest, last.name, last.span)
        } else {
            rest
        }
    }
}

/// The declared regions that the signature never uses, in the order of their
/// declarations.
pub open spec fn unused_regions(func: FnDecl, generics: Generics) -> Seq<(Ident, Span)> {
    unused_among(declared_regions(generics.params@), signature_lifetimes(func, generics))
}

/// Where no annotation is met, every entry stays.
pub proof fn lemma_unused_among_none(map: Seq<(Ident, Span)>)
    ensures
        unused_among(map, Seq::empty()) == map,
    decreases map.len(),
{
    if map.len() > 0 {
        lemma_unused_among_none(map.drop_last());
    }
}

/// Striking the regions of `a`, then those of `b`, is striking those of
/// `a + b`.
pub proof fn lemma_unused_among_concat(map: Seq<(Ident, Span)>, a: Seq<Lifetime>, b: Seq<Lifetime>)
    ensures
        unused_among(unused_among(map, a), b) == unused_among(map, a + b),
    decreases map.len(),
{
    if map.len() > 0 {
        let rest = map.drop_last();
        let e = map.last();
        let lt = Lifetime { name: Name::Ident(e.0) };
        lemma_unused_among_concat(rest, a, b);
        assert((a + b).contains(lt) <==> a.contains(lt) || b.contains(lt)) by {
            if a.contains(lt) {
                let k = choose|k: int| 0 <= k < a.len() && a[k] == lt;
                assert((a + b)[k] == lt);
            }
            if b.contains(lt) {
                let k = choose|k: int| 0 <= k < b.len() && b[k] == lt;
                assert((a + b)[a.len() + k] == lt);
            }
            if (a + b).contains(lt) {
                let k = choose|k: int| 0 <= k < (a + b).len() && (a + b)[k] == lt;
                if k < a.len() {
                    assert(a[k] == lt);
                } else {
                    assert(b[k - a.len()] == lt);
                }
            }
        }
        if !uses(a, e.0) {
            let u = unused_among(rest, a);
            assert(u.push(e).drop_last() =~= u);
        }
    }
}

/// Keeps, for each declared region not met so far, the place of its
/// declaration.
pub struct LifetimeChecker {
    pub map: Vec<(Ident, Span)>,
}

impl LifetimeChecker {
    /// Whether `self` is `before` after a walk that met `lts`.
    pub open spec fn struck(&self, before: &Self, lts: Seq<Lifetime>) -> bool {
        self.map@ == unused_among(before.map@, lts)
    }

    /// Maps `name` to `span`.
    pub fn insert(&mut self, name: Ident, span: Span)
        ensures
            final(self).map@ == with_region(old(self).map@, name, span),
    {
        let mut found = false;
        let mut i: usize = 0;
        while i < self.map.len()
            invariant
                i <= self.map.len(),
                self.map@.len() == old(self).map@.len(),
                found == exists|k: int| 0 <= k < i && (#[trigger] old(self).map@[k]).0 == name,
                forall|k: int|
                    0 <= k < i ==> #[trigger] self.map@[k] == if old(self).map@[k].0 == name {
                        (name, span)
                    } else {
                        old(self).map@[k]
                    },
                forall|k: int|
                    i <= k < self.map.len() ==> #[trigger] self.map@[k] == old(self).map@[k],
            decreases self.map.len() - i,
        {
            if self.map[i].0 == name {
                self.map.set(i, (name, span));
                found = true;
            }
            i += 1;
        }
        if !found {
            self.map.push((name, span));
        }
    }

    /// Strikes the region that `lifetime` names.
    pub fn visit_lifetime(&mut self, lifetime: &Lifetime)
        ensures
            final(self).struck(old(self), seq![*lifetime]),
    {
        let mut kept: Vec<(Ident, Span)> = Vec::new();
        let mut i: usize = 0;
        while i < self.map.len()
            invariant
                i <= self.map.len(),
                self.map == old(self).map,
                kept@ == unused_among(self.map@.take(i as int), seq![*lifetime]),
            decreases self.map.len() - i,
        {
            let entry = self.map[i];
            proof {
                assert(self.map@.take(i + 1).drop_last() =~= self.map@.take(i as int));
                let lt = Lifetime { name: Name::Ident(entry.0) };
                let one = seq![*lifetime];
                assert(one[0] == *lifetime);
            }
            if Name::Ident(entry.0) != lifetime.name {
                kept.push(entry);
            }
            i += 1;
        }
        assert(self.map@.take(self.map.len() as int) =~= self.map@);
        self.map = kept;
    }

    /// Walks a type.
    pub fn visit_ty(&mut self, ty: &Ty)
        ensures
            final(self).struck(old(self), ty_lifetimes(*ty)),
        decreases ty,
    {
        match ty {
            Ty::Rptr(lt, inner) => {
                self.visit_lifetime(lt);
                self.visit_ty(inner);
                proof {
                    lemma_unused_among_concat(old(self).map@, seq![*lt], ty_lifetimes(**inner));
                }
            },
            Ty::Path(path) => {
                self.visit_path(path);
            },
            Ty::Opaque(path, bounds) => {
                self.visit_path(path);
                self.visit_param_bounds(bounds);
                proof {
                    lemma_unused_among_concat(
                        old(self).map@,
                        path_lifetimes(*path),
                        bounds_lifetimes(bounds@),
                    );
                }
            },
            Ty::TraitObject(bounds, lt) => {
                self.visit_poly_trait_refs(bounds);
                self.visit_lifetime(lt);
                proof {
                    lemma_unused_among_concat(
                        old(self).map@,
                        trait_refs_lifetimes(bounds@),
                        seq![*lt],
                    );
                }
            },
            Ty::Other(children) => {
                self.visit_generic_args(children);
            },
        }
    }

    /// Walks a list of types.
    pub fn visit_tys(&mut self, tys: &Vec<Ty>)
        ensures
            final(self).struck(old(self), tys_lifetimes(tys@)),
        decreases tys,
    {
        let mut i: usize = 0;
        proof {
            lemma_unused_among_none(old(self).map@);
        }
        while i < tys.len()
            invariant
                i <= tys.len(),
                self.struck(old(self), tys_lifetimes(tys@.take(i as int))),
            decreases tys.len() - i,
        {
            self.visit_ty(&tys[i]);
            proof {
                assert(tys@.take(i + 1).drop_last() =~= tys@.take(i as int));
                lemma_unused_among_concat(
                    old(self).map@,
                    tys_lifetimes(tys@.take(i as int)),
                    ty_lifetimes(tys@[i as int]),
                );
            }
            i += 1;
        }
        proof {
            assert(tys@.take(tys.len() as int) =~= tys@);
        }
    }

    /// Walks the generic arguments of a path.
    pub fn visit_path(&mut self, path: &Path)
        ensures
            final(self).struck(old(self), path_lifetimes(*path)),
        decreases path,
    {
        self.visit_generic_args(&path.args);
    }

    /// Walks a list of generic arguments.
    pub fn visit_generic_args(&mut self, args: &Vec<GenericArg>)
        ensures
            final(self).struck(old(self), args_lifetimes(args@)),
        decreases args,
    {
        let mut i: usize = 0;
        proof {
            lemma_unused_among_none(old(self).map@);
        }
        while i < args.len()
            invariant
                i <= args.len(),
                self.struck(old(self), args_lifetimes(args@.take(i as int))),
            decreases args.len() - i,
        {
            self.visit_generic_arg(&args[i]);
            proof {
                assert(args@.take(i + 1).drop_last() =~= args@.take(i as int));
                lemma_unused_among_concat(
                    old(self).map@,
                    args_lifetimes(args@.take(i as int)),
                    arg_lifetimes(args@[i as int]),
                );
            }
            i += 1;
        }
        proof {
            assert(args@.take(args.len() as int) =~= args@);
        }
    }

    /// Walks one generic argument.
    pub fn visit_generic_arg(&mut self, arg: &GenericArg)
        ensures
            final(self).struck(old(self), arg_lifetimes(*arg)),
        decreases arg,
    {
        match arg {
            GenericArg::Lifetime(lt) => self.visit_lifetime(lt),
            GenericArg::Type(ty) => self.visit_ty(ty),
        }
    }

    /// Walks a list of trait bounds.
    pub fn visit_poly_trait_refs(&mut self, refs: &Vec<PolyTraitRef>)
        ensures
            final(self).struck(old(self), trait_refs_lifetimes(refs@)),
        decreases refs,
    {
        let mut i: usize = 0;
        proof {
            lemma_unused_among_none(old(self).map@);
        }
        while i < refs.len()
            invariant
                i <= refs.len(),
                self.struck(old(self), trait_refs_lifetimes(refs@.take(i as int))),
            decreases refs.len() - i,
        {
            self.visit_poly_trait_ref(&refs[i]);
            proof {
                assert(refs@.take(i + 1).drop_last() =~= refs@.take(i as int));
                lemma_unused_among_concat(
                    old(self).map@,
                    trait_refs_lifetimes(refs@.take(i as int)),
                    trait_ref_lifetimes(refs@[i as int]),
                );
            }
            i += 1;
        }
        proof {
            assert(refs@.take(refs.len() as int) =~= refs@);
        }
    }

    /// Walks a trait bound: its binder, then its path.
    pub fn visit_poly_trait_ref(&mut self, r: &PolyTraitRef)
        ensures
            final(self).struck(old(self), trait_ref_lifetimes(*r)),
        decreases r,
    {
        self.visit_generic_params(&r.bound_generic_params);
        self.visit_path(&r.trait_ref);
        proof {
            lemma_unused_among_concat(
                old(self).map@,
                params_lifetimes(r.bound_generic_params@),
                path_lifetimes(r.trait_ref),
            );
        }
    }

    /// Walks a list of generic parameters.
    pub fn visit_generic_params(&mut self, params: &Vec<GenericParam>)
        ensures
            final(self).struck(old(self), params_lifetimes(params@)),
        decreases params,
    {
        let mut i: usize = 0;
        proof {
            lemma_unused_among_none(old(self).map@);
        }
        while i < params.len()
            invariant
                i <= params.len(),
                self.struck(old(self), params_lifetimes(params@.take(i as int))),
            decreases params.len() - i,
        {
            self.visit_generic_param(&params[i]);
            proof {
                assert(params@.take(i + 1).drop_last() =~= params@.take(i as int));
                lemma_unused_among_concat(
                    old(self).map@,
                    params_lifetimes(params@.take(i as int)),
                    param_lifetimes(params@[i as int]),
                );
            }
            i += 1;
        }
        proof {
            assert(params@.take(params.len() as int) =~= params@);
        }
    }

    /// Walks the declaration of a generic parameter.
    pub fn visit_generic_param(&mut self, param: &GenericParam)
        ensures
            final(self).struck(old(self), param_lifetimes(*param)),
        decreases param,
    {
        // don't actually visit `<'a>` or `<'a: 'b>`
        // we've already visited the `'a` declarations and
        // don't want to spuriously remove them
        // `'b` in `'a: 'b` is useless unless used elsewhere in
        // a non-lifetime bound
        if let GenericParamKind::Type = param.kind {
            self.visit_param_bounds(&param.bounds);
        } else {
            proof {
                lemma_unused_among_none(old(self).map@);
            }
        }
    }

    /// Walks a bound list.
    pub fn visit_param_bounds(&mut self, bounds: &Vec<GenericBound>)
        ensures
            final(self).struck(old(self), bounds_lifetimes(bounds@)),
        decreases bounds,
    {
        let mut i: usize = 0;
        proof {
            lemma_unused_among_none(old(self).map@);
        }
        while i < bounds.len()
            invariant
                i <= bounds.len(),
                self.struck(old(self), bounds_lifetimes(bounds@.take(i as int))),
            decreases bounds.len() - i,
        {
            self.visit_param_bound(&bounds[i]);
            proof {
                assert(bounds@.take(i + 1).drop_last() =~= bounds@.take(i as int));
                lemma_unused_among_concat(
                    old(self).map@,
                    bounds_lifetimes(bounds@.take(i as int)),
                    bound_lifetimes(bounds@[i as int]),
                );
            }
            i += 1;
        }
        proof {
            assert(bounds@.take(bounds.len() as int) =~= bounds@);
        }
    }

    /// Walks one bound.
    pub fn visit_param_bound(&mut self, bound: &GenericBound)
        ensures
            final(self).struck(old(self), bound_lifetimes(*bound)),
        decreases bound,
    {
        match bound {
            GenericBound::Trait(r) => self.visit_poly_trait_ref(r),
            GenericBound::Outlives(lt) => self.visit_lifetime(lt),
        }
    }

    /// Walks one predicate of a `where` clause.
    pub fn visit_where_predicate(&mut self, pred: &WherePredicate)
        ensures
            final(self).struck(old(self), predicate_lifetimes(*pred)),
    {
        match pred {
            WherePredicate::RegionPredicate { lifetime, bounds } => {
                self.visit_lifetime(lifetime);
                self.visit_param_bounds(bounds);
                proof {
                    lemma_unused_among_concat(
                        old(self).map@,
                        seq![*lifetime],
                        bounds_lifetimes(bounds@),
                    );
                }
            },
            WherePredicate::BoundPredicate { bound_generic_params, bounded_ty, bounds } => {
                self.visit_ty(bounded_ty);
                self.visit_param_bounds(bounds);
                self.visit_generic_params(bound_generic_params);
                proof {
                    lemma_unused_among_concat(
                        old(self).map@,
                        ty_lifetimes(*bounded_ty),
                        bounds_lifetimes(bounds@),
                    );
                    lemma_unused_among_concat(
                        old(self).map@,
                        ty_lifetimes(*bounded_ty) + bounds_lifetimes(bounds@),
                        params_lifetimes(bound_generic_params@),
                    );
                }
            },
            WherePredicate::EqPredicate { lhs_ty, rhs_ty } => {
                self.visit_ty(lhs_ty);
                self.visit_ty(rhs_ty);
                proof {
                    lemma_unused_among_concat(
                        old(self).map@,
                        ty_lifetimes(*lhs_ty),
                        ty_lifetimes(*rhs_ty),
                    );
                }
            },
        }
    }

    /// Walks generic parameters and `where` clause.
    pub fn visit_generics(&mut self, generics: &Generics)
        ensures
            final(self).struck(old(self), generics_lifetimes(*generics)),
    {
        self.visit_generic_params(&generics.params);
        let ghost mid = self.map@;
        let preds = &generics.where_clause.predicates;
        let mut i: usize = 0;
        proof {
            lemma_unused_among_none(mid);
        }
        while i < preds.len()
            invariant
                i <= preds.len(),
                self.map@ == unused_among(mid, predicates_lifetimes(preds@.take(i as int))),
            decreases preds.len() - i,
        {
            self.visit_where_predicate(&preds[i]);
            proof {
                assert(preds@.take(i + 1).drop_last() =~= preds@.take(i as int));
                lemma_unused_among_concat(
                    mid,
                    predicates_lifetimes(preds@.take(i as int)),
                    predicate_lifetimes(preds@[i as int]),
                );
            }
            i += 1;
        }
        proof {
            assert(preds@.take(preds.len() as int) =~= preds@);
            lemma_unused_among_concat(
                old(self).map@,
                params_lifetimes(generics.params@),
                predicates_lifetimes(preds@),
            );
        }
    }

    /// Walks parameter types and return type.
    pub fn visit_fn_decl(&mut self, func: &FnDecl)
        ensures
            final(self).struck(old(self), decl_lifetimes(*func)),
    {
        self.visit_tys(&func.inputs);
        match &func.output {
            Some(ty) => {
                self.visit_ty(ty);
                proof {
                    lemma_unused_among_concat(
                        old(self).map@,
                        tys_lifetimes(func.inputs@),
                        ty_lifetimes(*ty),
                    );
                }
            },
            None => {
                assert(tys_lifetimes(func.inputs@) + Seq::<Lifetime>::empty() =~= tys_lifetimes(
                    func.inputs@,
                ));
            },
        }
    }
}

/// Lists the declared regions that the signature never uses, each with the
/// place of its declaration.
pub fn report_extra_lifetimes(func: &FnDecl, generics: &Generics) -> (r: Vec<(Ident, Span)>)
    ensures
        r@ == unused_regions(*func, *generics),
{
    let mut checker = LifetimeChecker { map: Vec::new() };
    let mut i: usize = 0;
    while i < generics.params.len()
        invariant
            i <= generics.params.len(),
            checker.map@ == declared_regions(generics.params@.take(i as int)),
        decreases generics.params.len() - i,
    {
        let par = &generics.params[i];
        assert(generics.params@.take(i + 1).drop_last() =~= generics.params@.take(i as int));
        if let GenericParamKind::Lifetime = par.kind {
            checker.insert(par.name, par.span);
        }
        i += 1;
    }
    assert(generics.params@.take(generics.params.len() as int) =~= generics.params@);
    let ghost declared = checker.map@;

    checker.visit_generics(generics);
    checker.visit_fn_decl(func);
    proof {
        lemma_unused_among_concat(declared, generics_lifetimes(*generics), decl_lifetimes(*func));
    }
    checker.map
}

} // verus!
