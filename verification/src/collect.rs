//! Collects the regions of the references in a type.

use vstd::prelude::*;
use crate::region::{descriptor, Lifetime, RefLt};
use crate::signature::{
    Declarations, GenericArg, GenericBound, GenericParam, Path, PolyTraitRef, Ty,
};

verus! {

/// What a walk over some part of a signature has recorded: the descriptors in
/// the order met, and whether the walk met something it cannot judge.
pub struct Collected {
    pub lts: Seq<RefLt>,
    pub abort: bool,
}

impl Collected {
    /// Nothing recorded.
    pub open spec fn empty() -> Collected {
        Collected { lts: Seq::empty(), abort: false }
    }

    /// The record of this walk continued by `next`.
    pub open spec fn join(self, next: Collected) -> Collected {
        Collected { lts: self.lts + next.lts, abort: self.abort || next.abort }
    }

    /// The descriptors, unless the walk gave up.
    pub open spec fn result(self) -> Option<Seq<RefLt>> {
        if self.abort {
            None
        } else {
            Some(self.lts)
        }
    }
}

/// `n` times `Unnamed`.
pub open spec fn unnamed(n: nat) -> Seq<RefLt> {
    Seq::new(n, |i: int| RefLt::Unnamed)
}

/// How many bounds of `bounds` are region bounds.
pub open spec fn outlives_count(bounds: Seq<GenericBound>) -> nat
    decreases bounds.len(),
{
    if bounds.len() == 0 {
        0
    } else {
        outlives_count(bounds.drop_last()) + if bounds.last() is Outlives {
            1nat
        } else {
            0nat
        }
    }
}

/// The regions that a path stands for without naming them: one `Unnamed` for
/// each generic parameter of its declaration where the path is written
/// without generic arguments. A path that cannot be resolved gives up.
pub open spec fn anonymous_regions(d: Declarations, path: Path) -> Collected {
    if path.args@.len() == 0 {
        match d.arity(path) {
            Some(n) => Collected { lts: unnamed(n as nat), abort: false },
            None => Collected { lts: Seq::empty(), abort: true },
        }
    } else {
        Collected::empty()
    }
}

/// The record of a walk over a type, outside in and left to right.
///
/// A reference yields the region written on it, or `Unnamed` where none is
/// written, and then what the type behind it yields. A path yields its
/// anonymous regions and then what its generic arguments yield. An opaque
/// type yields, as a path does, its anonymous regions, then one `Unnamed` for
/// each region bound that its declaration lists, then what its generic
/// arguments yield. A trait object yields what its bounds yield; its own
/// region is not recorded, and if one is written the walk gives up. Any
/// other type yields what its children yield.
pub open spec fn ty_regions(d: Declarations, ty: Ty) -> Collected
    decreases ty,
{
    match ty {
        Ty::Rptr(lt, inner) => Collected { lts: seq![descriptor(lt)], abort: false }.join(
            ty_regions(d, *inner),
        ),
        Ty::Path(path) => anonymous_regions(d, path).join(path_regions(d, path)),
        Ty::Opaque(path, bounds) => anonymous_regions(d, path).join(
            Collected { lts: unnamed(outlives_count(bounds@)), abort: false },
        ).join(path_regions(d, path)),
        Ty::TraitObject(bounds, lt) => Collected {
            lts: Seq::empty(),
            abort: !lt.spec_is_elided(),
        }.join(trait_refs_regions(d, bounds@)),
        Ty::Other(children) => args_regions(d, children@),
    }
}

/// The record of a walk over a list of types, one after the other.
pub open spec fn tys_regions(d: Declarations, tys: Seq<Ty>) -> Collected
    decreases tys,
{
    if tys.len() == 0 {
        Collected::empty()
    } else {
        tys_regions(d, tys.drop_last()).join(ty_regions(d, tys.last()))
    }
}

/// The record of a walk over the generic arguments of a path.
pub open spec fn path_regions(d: Declarations, path: Path) -> Collected
    decreases path,
{
    args_regions(d, path.args@)
}

/// The record of a walk over a list of generic arguments.
pub open spec fn args_regions(d: Declarations, args: Seq<GenericArg>) -> Collected
    decreases args,
{
    if args.len() == 0 {
        Collected::empty()
    } else {
        args_regions(d, args.drop_last()).join(arg_regions(d, args.last()))
    }
}

/// The record of a walk over one generic argument.
pub open spec fn arg_regions(d: Declarations, arg: GenericArg) -> Collected
    decreases arg,
{
    match arg {
        GenericArg::Lifetime(lt) => Collected { lts: seq![descriptor(lt)], abort: false },
        GenericArg::Type(ty) => ty_regions(d, ty),
    }
}

/// The record of a walk over a list of trait bounds.
pub open spec fn trait_refs_regions(d: Declarations, refs: Seq<PolyTraitRef>) -> Collected
    decreases refs,
{
    if refs.len() == 0 {
        Collected::empty()
    } else {
        trait_refs_regions(d, refs.drop_last()).join(trait_ref_regions(d, refs.last()))
    }
}

/// The record of a walk over a trait bound: its binder, then its path.
pub open spec fn trait_ref_regions(d: Declarations, r: PolyTraitRef) -> Collected
    decreases r,
{
    params_regions(d, r.bound_generic_params@).join(path_regions(d, r.trait_ref))
}

/// The record of a walk over a list of generic parameters.
pub open spec fn params_regions(d: Declarations, params: Seq<GenericParam>) -> Collected
    decreases params,
{
    if params.len() == 0 {
        Collected::empty()
    } else {
        params_regions(d, params.drop_last()).join(param_regions(d, params.last()))
    }
}

/// The record of a walk over one generic parameter, that is over its bounds.
pub open spec fn param_regions(d: Declarations, param: GenericParam) -> Collected
    decreases param,
{
    bounds_regions(d, param.bounds@)
}

/// The record of a walk over a bound list.
pub open spec fn bounds_regions(d: Declarations, bounds: Seq<GenericBound>) -> Collected
    decreases bounds,
{
    if bounds.len() == 0 {
        Collected::empty()
    } else {
        bounds_regions(d, bounds.drop_last()).join(bound_regions(d, bounds.last()))
    }
}

/// The record of a walk over one bound.
pub open spec fn bound_regions(d: Declarations, bound: GenericBound) -> Collected
    decreases bound,
{
    match bound {
        GenericBound::Trait(r) => trait_ref_regions(d, r),
        GenericBound::Outlives(lt) => Collected { lts: seq![descriptor(lt)], abort: false },
    }
}

/// The regions of the references in `ty`, in order, or nothing where `ty`
/// holds something that cannot be judged.
pub fn collect_regions(cx: &Declarations, ty: &Ty) -> (r: Option<Vec<RefLt>>)
    ensures
        match r {
            Some(lts) => ty_regions(*cx, *ty).result() == Some(lts@),
            None => ty_regions(*cx, *ty).result().is_none(),
        },
{
    let mut visitor = RefVisitor::new(cx);
    visitor.visit_ty(ty);
    proof {
        lemma_join_empty(ty_regions(*cx, *ty));
    }
    visitor.into_vec()
}

/// `a.join(b).join(c)` and `a.join(b.join(c))` are the same record.
pub proof fn lemma_join_assoc(a: Collected, b: Collected, c: Collected)
    ensures
        a.join(b).join(c) == a.join(b.join(c)),
{
    assert(a.join(b).join(c).lts =~= a.join(b.join(c)).lts);
}

/// Joining with the empty record changes nothing.
pub proof fn lemma_join_empty(a: Collected)
    ensures
        a.join(Collected::empty()) == a,
        Collected::empty().join(a) == a,
{
}

/// Walks types and records the region of each reference met.
pub struct RefVisitor<'a> {
    pub cx: &'a Declarations,
    pub lts: Vec<RefLt>,
    pub abort: bool,
}

impl<'a> View for RefVisitor<'a> {
    type V = Collected;

    open spec fn view(&self) -> Collected {
        Collected { lts: self.lts@, abort: self.abort }
    }
}

impl<'a> RefVisitor<'a> {
    /// Whether `self` is `before` after a further walk that recorded `walk`.
    pub open spec fn extends(&self, before: &Self, walk: Collected) -> bool {
        &&& self.cx == before.cx
        &&& self@ == before@.join(walk)
    }

    /// A visitor that has recorded nothing yet.
    pub fn new(cx: &'a Declarations) -> (v: Self)
        ensures
            v.cx == cx,
            v@ == Collected::empty(),
    {
        Self { cx, lts: Vec::new(), abort: false }
    }

    /// Records one region: that of `lifetime`, or `Unnamed` where there is
    /// no annotation.
    pub fn record(&mut self, lifetime: &Option<Lifetime>)
        ensures
            final(self).extends(
                old(self),
                Collected {
                    lts: seq![
                        match *lifetime {
                            Some(lt) => descriptor(lt),
                            None => RefLt::Unnamed,
                        },
                    ],
                    abort: false,
                },
            ),
    {
        if let Some(lt) = lifetime {
            if lt.is_static() {
                self.lts.push(RefLt::Static);
            } else if lt.is_elided() {
                self.lts.push(RefLt::Unnamed);
            } else {
                self.lts.push(RefLt::Named(lt.name));
            }
        } else {
            self.lts.push(RefLt::Unnamed);
        }
        assert(self.lts@ =~= old(self).lts@ + seq![self.lts@.last()]);
    }

    /// The descriptors recorded, unless a walk gave up.
    pub fn into_vec(self) -> (r: Option<Vec<RefLt>>)
        ensures
            match r {
                Some(v) => self@.result() == Some(v@),
                None => self@.result().is_none(),
            },
    {
        if self.abort {
            None
        } else {
            Some(self.lts)
        }
    }

    /// Records `n` times `Unnamed`.
    fn record_unnamed(&mut self, n: usize)
        ensures
            final(self).extends(old(self), Collected { lts: unnamed(n as nat), abort: false }),
    {
        let mut i: usize = 0;
        while i < n
            invariant
                i <= n,
                self.cx == old(self).cx,
                self.abort == old(self).abort,
                self.lts@ == old(self).lts@ + unnamed(i as nat),
            decreases n - i,
        {
            self.record(&None);
            i += 1;
        }
    }

    /// Records the regions that `path` stands for without naming them.
    pub fn collect_anonymous_lifetimes(&mut self, path: &Path)
        ensures
            final(self).extends(old(self), anonymous_regions(*old(self).cx, *path)),
    {
        if path.args.len() == 0 {
            match self.cx.resolve_declaration_arity(path) {
                Some(n) => {
                    self.record_unnamed(n);
                },
                None => {
                    self.abort = true;
                },
            }
        } else {
            proof {
                lemma_join_empty(old(self)@);
            }
        }
    }

    /// Records the region of an annotation met as a generic argument or as a
    /// bound.
    pub fn visit_lifetime(&mut self, lifetime: &Lifetime)
        ensures
            final(self).extends(
                old(self),
                Collected { lts: seq![descriptor(*lifetime)], abort: false },
            ),
    {
        self.record(&Some(*lifetime));
    }

    /// Walks a type.
    pub fn visit_ty(&mut self, ty: &Ty)
        ensures
            final(self).extends(old(self), ty_regions(*old(self).cx, *ty)),
        decreases ty,
    {
        let ghost d = *self.cx;
        match ty {
            Ty::Rptr(lt, inner) => {
                if lt.is_elided() {
                    self.record(&None);
                } else {
                    self.visit_lifetime(lt);
                }
                self.visit_ty(inner);
                proof {
                    lemma_join_assoc(
                        old(self)@,
                        Collected { lts: seq![descriptor(*lt)], abort: false },
                        ty_regions(d, **inner),
                    );
                }
            },
            Ty::Path(path) => {
                self.collect_anonymous_lifetimes(path);
                self.visit_path(path);
                proof {
                    lemma_join_assoc(
                        old(self)@,
                        anonymous_regions(d, *path),
                        path_regions(d, *path),
                    );
                }
            },
            Ty::Opaque(path, bounds) => {
                self.collect_anonymous_lifetimes(path);
                let ghost mid = self@;
                let mut i: usize = 0;
                proof {
                    lemma_join_empty(mid);
                }
                while i < bounds.len()
                    invariant
                        i <= bounds.len(),
                        self.cx == old(self).cx,
                        self@ == mid.join(
                            Collected {
                                lts: unnamed(outlives_count(bounds@.take(i as int))),
                                abort: false,
                            },
                        ),
                    decreases bounds.len() - i,
                {
                    let ghost n = outlives_count(bounds@.take(i as int));
                    proof {
                        assert(bounds@.take(i + 1).drop_last() =~= bounds@.take(i as int));
                    }
                    if let GenericBound::Outlives(_) = bounds[i] {
                        self.record(&None);
                        proof {
                            assert(unnamed(n) + seq![RefLt::Unnamed] =~= unnamed(n + 1));
                            lemma_join_assoc(
                                mid,
                                Collected { lts: unnamed(n), abort: false },
                                Collected { lts: seq![RefLt::Unnamed], abort: false },
                            );
                        }
                    }
                    i += 1;
                }
                proof {
                    assert(bounds@.take(bounds.len() as int) =~= bounds@);
                }
                self.visit_path(path);
                proof {
                    let a = anonymous_regions(d, *path);
                    let b = Collected { lts: unnamed(outlives_count(bounds@)), abort: false };
                    lemma_join_assoc(old(self)@, a, b);
                    lemma_join_assoc(old(self)@, a.join(b), path_regions(d, *path));
                }
            },
            Ty::TraitObject(bounds, lt) => {
                if !lt.is_elided() {
                    self.abort = true;
                }
                self.visit_poly_trait_refs(bounds);
                proof {
                    lemma_join_assoc(
                        old(self)@,
                        Collected { lts: Seq::empty(), abort: !lt.spec_is_elided() },
                        trait_refs_regions(d, bounds@),
                    );
                }
            },
            Ty::Other(children) => {
                self.visit_generic_args(children);
            },
        }
    }

    /// Walks the generic arguments of a path.
    pub fn visit_path(&mut self, path: &Path)
        ensures
            final(self).extends(old(self), path_regions(*old(self).cx, *path)),
        decreases path,
    {
        self.visit_generic_args(&path.args);
    }

    /// Walks a list of generic arguments.
    pub fn visit_generic_args(&mut self, args: &Vec<GenericArg>)
        ensures
            final(self).extends(old(self), args_regions(*old(self).cx, args@)),
        decreases args,
    {
        let ghost d = *self.cx;
        let mut i: usize = 0;
        proof {
            lemma_join_empty(old(self)@);
        }
        while i < args.len()
            invariant
                i <= args.len(),
                d == *old(self).cx,
                self.extends(old(self), args_regions(d, args@.take(i as int))),
            decreases args.len() - i,
        {
            self.visit_generic_arg(&args[i]);
            proof {
                assert(args@.take(i + 1).drop_last() =~= args@.take(i as int));
                lemma_join_assoc(
                    old(self)@,
                    args_regions(d, args@.take(i as int)),
                    arg_regions(d, args@[i as int]),
                );
            }
            i += 1;
        }
        proof {
            assert(args@.take(args.len() as int) =~= args@);
        }
    }

    /// Walks one generic argument.
    pub fn visit_generic_arg(&mut self, arg: &GenericArg)
        ensures
            final(self).extends(old(self), arg_regions(*old(self).cx, *arg)),
        decreases arg,
    {
        match arg {
            GenericArg::Lifetime(lt) => self.visit_lifetime(lt),
            GenericArg::Type(ty) => self.visit_ty(ty),
        }
    }

    /// Walks a list of trait bounds.
    pub fn visit_poly_trait_refs(&mut self, refs: &Vec<PolyTraitRef>)
        ensures
            final(self).extends(old(self), trait_refs_regions(*old(self).cx, refs@)),
        decreases refs,
    {
        let ghost d = *self.cx;
        let mut i: usize = 0;
        proof {
            lemma_join_empty(old(self)@);
        }
        while i < refs.len()
            invariant
                i <= refs.len(),
                d == *old(self).cx,
                self.extends(old(self), trait_refs_regions(d, refs@.take(i as int))),
            decreases refs.len() - i,
        {
            self.visit_poly_trait_ref(&refs[i]);
            proof {
                assert(refs@.take(i + 1).drop_last() =~= refs@.take(i as int));
                lemma_join_assoc(
                    old(self)@,
                    trait_refs_regions(d, refs@.take(i as int)),
                    trait_ref_regions(d, refs@[i as int]),
                );
            }
            i += 1;
        }
        proof {
            assert(refs@.take(refs.len() as int) =~= refs@);
        }
    }

    /// Walks a trait bound: its binder, then its path.
    pub fn visit_poly_trait_ref(&mut self, r: &PolyTraitRef)
        ensures
            final(self).extends(old(self), trait_ref_regions(*old(self).cx, *r)),
        decreases r,
    {
        let ghost d = *self.cx;
        self.visit_generic_params(&r.bound_generic_params);
        self.visit_path(&r.trait_ref);
        proof {
            lemma_join_assoc(
                old(self)@,
                params_regions(d, r.bound_generic_params@),
                path_regions(d, r.trait_ref),
            );
        }
    }

    /// Walks a list of generic parameters.
    pub fn visit_generic_params(&mut self, params: &Vec<GenericParam>)
        ensures
            final(self).extends(old(self), params_regions(*old(self).cx, params@)),
        decreases params,
    {
        let ghost d = *self.cx;
        let mut i: usize = 0;
        proof {
            lemma_join_empty(old(self)@);
        }
        while i < params.len()
            invariant
                i <= params.len(),
                d == *old(self).cx,
                self.extends(old(self), params_regions(d, params@.take(i as int))),
            decreases params.len() - i,
        {
            self.visit_generic_param(&params[i]);
            proof {
                assert(params@.take(i + 1).drop_last() =~= params@.take(i as int));
                lemma_join_assoc(
                    old(self)@,
                    params_regions(d, params@.take(i as int)),
                    param_regions(d, params@[i as int]),
                );
            }
            i += 1;
        }
        proof {
            assert(params@.take(params.len() as int) =~= params@);
        }
    }

    /// Walks one generic parameter, that is its bounds.
    pub fn visit_generic_param(&mut self, param: &GenericParam)
        ensures
            final(self).extends(old(self), param_regions(*old(self).cx, *param)),
        decreases param,
    {
        self.visit_param_bounds(&param.bounds);
    }

    /// Walks a bound list.
    pub fn visit_param_bounds(&mut self, bounds: &Vec<GenericBound>)
        ensures
            final(self).extends(old(self), bounds_regions(*old(self).cx, bounds@)),
        decreases bounds,
    {
        let ghost d = *self.cx;
        let mut i: usize = 0;
        proof {
            lemma_join_empty(old(self)@);
        }
        while i < bounds.len()
            invariant
                i <= bounds.len(),
                d == *old(self).cx,
                self.extends(old(self), bounds_regions(d, bounds@.take(i as int))),
            decreases bounds.len() - i,
        {
            self.visit_param_bound(&bounds[i]);
            proof {
                assert(bounds@.take(i + 1).drop_last() =~= bounds@.take(i as int));
                lemma_join_assoc(
                    old(self)@,
                    bounds_regions(d, bounds@.take(i as int)),
                    bound_regions(d, bounds@[i as int]),
                );
            }
            i += 1;
        }
        proof {
            assert(bounds@.take(bounds.len() as int) =~= bounds@);
        }
    }

    /// Walks one bound.
    pub fn visit_param_bound(&mut self, bound: &GenericBound)
        ensures
            final(self).extends(old(self), bound_regions(*old(self).cx, *bound)),
        decreases bound,
    {
        match bound {
            GenericBound::Trait(r) => self.visit_poly_trait_ref(r),
            GenericBound::Outlives(lt) => self.visit_lifetime(lt),
        }
    }
}

} // verus!
