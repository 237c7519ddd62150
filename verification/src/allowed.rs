//! The regions that a signature may mention and still be judged.

use vstd::prelude::*;
use crate::region::{Ident, Name, RefLt};
use crate::signature::{GenericParam, GenericParamKind};

verus! {

/// Whether `param` declares the region `name` without any bound on it.
pub open spec fn declares_free_region(param: GenericParam, name: Ident) -> bool {
    &&& param.kind == GenericParamKind::Lifetime
    &&& param.bounds@.len() == 0
    &&& param.name == name
}

/// Whether a region may occur in a signature declaring `params`: it is
/// unnamed, universal, or declared among `params` without bounds.
pub open spec fn allowed(params: Seq<GenericParam>, lt: RefLt) -> bool {
    match lt {
        RefLt::Unnamed => true,
        RefLt::Static => true,
        RefLt::Named(Name::Ident(n)) => exists|i: int|
            0 <= i < params.len() && declares_free_region(#[trigger] params[i], n),
        RefLt::Named(_) => false,
    }
}

/// The set of regions allowed under `params`.
pub open spec fn allowed_set(params: Seq<GenericParam>) -> Set<RefLt> {
    Set::new(|lt: RefLt| allowed(params, lt))
}

/// The regions that `params` declare without bounds, in declaration order.
pub open spec fn free_regions(params: Seq<GenericParam>) -> Seq<RefLt>
    decreases params.len(),
{
    if params.len() == 0 {
        Seq::empty()
    } else {
        let rest = free_regions(params.drop_last());
        let last = params.last();
        if last.kind == GenericParamKind::Lifetime && last.bounds@.len() == 0 {
            rest.push(RefLt::Named(Name::Ident(last.name)))
        } else {
            rest
        }
    }
}

/// The allowed regions as a list: the free regions of `params`, then
/// `Unnamed` and `Static`.
pub open spec fn allowed_list(params: Seq<GenericParam>) -> Seq<RefLt> {
    free_regions(params).push(RefLt::Unnamed).push(RefLt::Static)
}

/// `free_regions` lists exactly the named regions that are allowed.
pub proof fn lemma_free_regions(params: Seq<GenericParam>, lt: RefLt)
    ensures
        free_regions(params).contains(lt) <==> lt is Named && allowed(params, lt),
    decreases params.len(),
{
    if params.len() > 0 {
        let rest = params.drop_last();
        let last = params.last();
        lemma_free_regions(rest, lt);
        if lt is Named && allowed(params, lt) {
            let n = lt->Named_0->Ident_0;
            let i = choose|i: int|
                0 <= i < params.len() && declares_free_region(#[trigger] params[i], n);
            if i == params.len() - 1 {
                assert(free_regions(params).last() == lt);
            } else {
                assert(declares_free_region(rest[i], n));
                let k = choose|k: int|
                    0 <= k < free_regions(rest).len() && free_regions(rest)[k] == lt;
                assert(free_regions(params)[k] == lt);
            }
        }
    }
}

/// `allowed_list` lists exactly the allowed regions.
pub proof fn lemma_allowed_lts(params: Seq<GenericParam>)
    ensures
        allowed_list(params).to_set() == allowed_set(params),
{
    let l = allowed_list(params);
    let f = free_regions(params);
    assert forall|lt: RefLt| l.contains(lt) <==> allowed(params, lt) by {
        lemma_free_regions(params, lt);
        if allowed(params, lt) {
            if lt is Named {
                let k = choose|k: int| 0 <= k < f.len() && f[k] == lt;
                assert(l[k] == lt);
            } else if lt is Unnamed {
                assert(l[f.len() as int] == lt);
            } else {
                assert(l[f.len() as int + 1] == lt);
            }
        }
    }
}

/// The regions allowed in a signature that declares `named_generics`.
pub fn allowed_lts_from(named_generics: &[GenericParam]) -> (allowed_lts: Vec<RefLt>)
    ensures
        allowed_lts@ == allowed_list(named_generics@),
        allowed_lts@.to_set() == allowed_set(named_generics@),
{
    let mut allowed_lts: Vec<RefLt> = Vec::new();
    let mut i: usize = 0;
    while i < named_generics.len()
        invariant
            i <= named_generics.len(),
            allowed_lts@ == free_regions(named_generics@.take(i as int)),
        decreases named_generics.len() - i,
    {
        let par = &named_generics[i];
        assert(named_generics@.take(i + 1).drop_last() =~= named_generics@.take(i as int));
        if let GenericParamKind::Lifetime = par.kind {
            if par.bounds.len() == 0 {
                allowed_lts.push(RefLt::Named(Name::Ident(par.name)));
            }
        }
        i += 1;
    }
    assert(named_generics@.take(named_generics.len() as int) =~= named_generics@);
    allowed_lts.push(RefLt::Unnamed);
    allowed_lts.push(RefLt::Static);
    proof {
        lemma_allowed_lts(named_generics@);
    }
    allowed_lts
}

/// Whether `lt` is among `lts`.
pub fn contains(lts: &[RefLt], lt: &RefLt) -> (r: bool)
    ensures
        r == lts@.contains(*lt),
{
    let mut i: usize = 0;
    while i < lts.len()
        invariant
            i <= lts.len(),
            forall|k: int| 0 <= k < i ==> lts@[k] != *lt,
        decreases lts.len() - i,
    {
        if lts[i] == *lt {
            return true;
        }
        i += 1;
    }
    false
}

} // verus!
