//! Decides whether the named regions of a signature could be left out.

use vstd::prelude::*;
use crate::allowed::{allowed_lts_from, allowed_set, contains};
use crate::body::{body_names_region, BodyLifetimeChecker};
use crate::collect::{lemma_join_empty, ty_regions, tys_regions, Collected, RefVisitor};
use crate::region::{Lifetime, Name, RefLt};
use crate::signature::{Body, Declarations, FnDecl, GenericParam};

verus! {

/// The descriptors that the annotations met in the bounds of type parameters
/// add to the input regions: each one that is not the universal region, as a
/// named region.
pub open spec fn named_from_bounds(bounds_lts: Seq<Lifetime>) -> Seq<RefLt>
    decreases bounds_lts.len(),
{
    if bounds_lts.len() == 0 {
        Seq::empty()
    } else {
        let rest = named_from_bounds(bounds_lts.drop_last());
        let last = bounds_lts.last();
        if last.name != Name::Static {
            rest.push(RefLt::Named(last.name))
        } else {
            rest
        }
    }
}

/// Appends to `vec` what `bounds_lts` add to the input regions.
pub fn lts_from_bounds(vec: Vec<RefLt>, bounds_lts: &[Lifetime]) -> (r: Vec<RefLt>)
    ensures
        r@ == vec@ + named_from_bounds(bounds_lts@),
{
    let mut vec = vec;
    let ghost start = vec@;
    let mut i: usize = 0;
    while i < bounds_lts.len()
        invariant
            i <= bounds_lts.len(),
            vec@ == start + named_from_bounds(bounds_lts@.take(i as int)),
        decreases bounds_lts.len() - i,
    {
        let lt = &bounds_lts[i];
        assert(bounds_lts@.take(i + 1).drop_last() =~= bounds_lts@.take(i as int));
        if lt.name != Name::Static {
            vec.push(RefLt::Named(lt.name));
        }
        i += 1;
    }
    assert(bounds_lts@.take(bounds_lts.len() as int) =~= bounds_lts@);
    vec
}

/// Number of unique lifetimes in the given vector.
pub fn unique_lifetimes(lts: &[RefLt]) -> (n: usize)
    ensures
        n == lts@.to_set().len(),
{
    let mut seen: Vec<RefLt> = Vec::new();
    let mut i: usize = 0;
    while i < lts.len()
        invariant
            i <= lts.len(),
            seen@.len() <= i,
            seen@.no_duplicates(),
            forall|x: RefLt| seen@.contains(x) <==> lts@.take(i as int).contains(x),
        decreases lts.len() - i,
    {
        let ghost before = seen@;
        let found = contains(seen.as_slice(), &lts[i]);
        if !found {
            seen.push(lts[i]);
        }
        proof {
            let t0 = lts@.take(i as int);
            let t1 = lts@.take(i + 1);
            assert forall|x: RefLt| seen@.contains(x) <==> t1.contains(x) by {
                if seen@.contains(x) {
                    let k = choose|k: int| 0 <= k < seen@.len() && seen@[k] == x;
                    if k < before.len() {
                        assert(before[k] == x);
                        assert(before.contains(x));
                        let m = choose|m: int| 0 <= m < t0.len() && t0[m] == x;
                        assert(t1[m] == x);
                    } else {
                        assert(t1[i as int] == x);
                    }
                }
                if t1.contains(x) {
                    let m = choose|m: int| 0 <= m < t1.len() && t1[m] == x;
                    if m < i {
                        assert(t0[m] == x);
                        assert(before.contains(x));
                        let k = choose|k: int| 0 <= k < before.len() && before[k] == x;
                        assert(seen@[k] == x);
                    } else if found {
                        let k = choose|k: int| 0 <= k < before.len() && before[k] == x;
                        assert(seen@[k] == x);
                    } else {
                        assert(seen@[before.len() as int] == x);
                    }
                }
            }
        }
        i += 1;
    }
    proof {
        assert(lts@.take(lts.len() as int) =~= lts@);
        assert(seen@.to_set() =~= lts@.to_set());
        seen@.unique_seq_to_set();
    }
    seen.len()
}

/// Whether regions may be left out of a signature whose parameter types hold
/// the regions `input`, in order, and whose return type holds `output`, where
/// `allowed` are the regions that the signature may mention.
///
/// Every region met must be allowed, and there must be an input region. With
/// no output region, some input region must be named and no two input regions
/// may be the same. With output regions, they must all be the same, and there
/// must be exactly one input region, a named one, which the output regions
/// repeat or leave unnamed.
pub open spec fn feasible(allowed: Set<RefLt>, input: Seq<RefLt>, output: Seq<RefLt>) -> bool {
    &&& forall|i: int| 0 <= i < input.len() ==> allowed.contains(#[trigger] input[i])
    &&& forall|i: int| 0 <= i < output.len() ==> allowed.contains(#[trigger] output[i])
    &&& input.len() > 0
    &&& if output.len() == 0 {
        &&& exists|i: int| 0 <= i < input.len() && (#[trigger] input[i]) is Named
        &&& input.no_duplicates()
    } else {
        &&& forall|i: int| 0 <= i < output.len() ==> #[trigger] output[i] == output[0]
        &&& input.len() == 1
        &&& input[0] is Named
        &&& (output[0] == input[0] || output[0] == RefLt::Unnamed)
    }
}

/// A list holds one value only exactly when its set of values has one
/// element.
pub proof fn lemma_single_value(s: Seq<RefLt>)
    requires
        s.len() > 0,
    ensures
        s.to_set().len() <= 1 <==> (forall|i: int| 0 <= i < s.len() ==> #[trigger] s[i] == s[0]),
{
    broadcast use vstd::seq_lib::seq_to_set_is_finite;

    let set = s.to_set();
    assert(s.contains(s[0]));
    if forall|i: int| 0 <= i < s.len() ==> #[trigger] s[i] == s[0] {
        assert(set =~= Set::empty().insert(s[0]));
    } else {
        let i = choose|i: int| 0 <= i < s.len() && #[trigger] s[i] != s[0];
        assert(s.contains(s[i]));
        assert(set.remove(s[0]).contains(s[i]));
        assert(set.remove(s[0]).len() > 0);
    }
}

/// Whether every region of `lts` is among `allowed_lts`.
pub fn all_allowed(allowed_lts: &[RefLt], lts: &[RefLt]) -> (r: bool)
    ensures
        r == (forall|i: int|
            0 <= i < lts@.len() ==> allowed_lts@.to_set().contains(#[trigger] lts@[i])),
{
    let mut i: usize = 0;
    while i < lts.len()
        invariant
            i <= lts.len(),
            forall|k: int| 0 <= k < i ==> allowed_lts@.to_set().contains(#[trigger] lts@[k]),
        decreases lts.len() - i,
    {
        if !contains(allowed_lts, &lts[i]) {
            return false;
        }
        i += 1;
    }
    true
}

/// Whether all of `lts` are unnamed or universal.
pub fn unnamed_and_static(lts: &[RefLt]) -> (r: bool)
    ensures
        r == !(exists|i: int| 0 <= i < lts@.len() && (#[trigger] lts@[i]) is Named),
{
    let mut i: usize = 0;
    while i < lts.len()
        invariant
            i <= lts.len(),
            forall|k: int| 0 <= k < i ==> !((#[trigger] lts@[k]) is Named),
        decreases lts.len() - i,
    {
        if !(lts[i] == RefLt::Unnamed || lts[i] == RefLt::Static) {
            return false;
        }
        i += 1;
    }
    true
}

/// Decides from the regions collected whether elision applies.
pub fn elision_feasible(
    allowed_lts: &[RefLt],
    input_lts: &[RefLt],
    output_lts: &[RefLt],
) -> (r: bool)
    ensures
        r == feasible(allowed_lts@.to_set(), input_lts@, output_lts@),
{
    // check for lifetimes from higher scopes
    if !all_allowed(allowed_lts, input_lts) || !all_allowed(allowed_lts, output_lts) {
        return false;
    }
    // no input lifetimes? easy case!
    if input_lts.len() == 0 {
        false
    } else if output_lts.len() == 0 {
        // no output lifetimes, check distinctness of input lifetimes
        // only unnamed and static, ok
        if unnamed_and_static(input_lts) {
            return false;
        }
        // we have no output reference, so we only need all distinct lifetimes
        let unique = unique_lifetimes(input_lts);
        proof {
            if input_lts@.no_duplicates() {
                input_lts@.unique_seq_to_set();
            }
            if input_lts@.to_set().len() == input_lts@.len() {
                input_lts@.lemma_no_dup_set_cardinality();
            }
        }
        input_lts.len() == unique
    } else {
        // we have output references, so we need one input reference,
        // and all output lifetimes must be the same
        proof {
            lemma_single_value(output_lts@);
        }
        if unique_lifetimes(output_lts) > 1 {
            return false;
        }
        if input_lts.len() == 1 {
            match (input_lts[0], output_lts[0]) {
                (RefLt::Named(n1), RefLt::Named(n2)) => n1 == n2,
                (RefLt::Named(_), RefLt::Unnamed) => true,
                _ => false,  // already elided, different named lifetimes
                // or something static going on
            }
        } else {
            false
        }
    }
}

/// The record of a walk over the parameter types of `func`.
pub open spec fn input_regions(d: Declarations, func: FnDecl) -> Collected {
    tys_regions(d, func.inputs@)
}

/// The record of a walk over the return type of `func`.
pub open spec fn output_regions(d: Declarations, func: FnDecl) -> Collected {
    match func.output {
        Some(ty) => ty_regions(d, ty),
        None => Collected::empty(),
    }
}

/// Whether the named regions of `func` could be left out: both walks
/// succeed, the body, if there is one, names no region, and elision is
/// feasible for the regions found, those of the parameter types being
/// followed by what `bounds_lts` add.
pub open spec fn elidable(
    d: Declarations,
    func: FnDecl,
    body: Option<&Body>,
    named_generics: Seq<GenericParam>,
    bounds_lts: Seq<Lifetime>,
) -> bool {
    &&& !input_regions(d, func).abort
    &&& !output_regions(d, func).abort
    &&& (body matches Some(b) ==> !body_names_region(*b))
    &&& feasible(
        allowed_set(named_generics),
        input_regions(d, func).lts + named_from_bounds(bounds_lts),
        output_regions(d, func).lts,
    )
}

/// Decides whether the named regions of `func` could be left out.
pub fn could_use_elision(
    cx: &Declarations,
    func: &FnDecl,
    body: Option<&Body>,
    named_generics: &[GenericParam],
    bounds_lts: Vec<Lifetime>,
) -> (r: bool)
    ensures
        r == elidable(*cx, *func, body, named_generics@, bounds_lts@),
{
    // There are two scenarios where elision works:
    // * no output references, all input references have different LT
    // * output references, exactly one input reference with same LT
    // All lifetimes must be unnamed, 'static or defined without bounds on the
    // level of the current item.
    // check named LTs
    let allowed_lts = allowed_lts_from(named_generics);

    // these will collect all the lifetimes for references in arg/return types
    let mut input_visitor = RefVisitor::new(cx);
    let mut output_visitor = RefVisitor::new(cx);

    // extract lifetimes in input argument types
    let mut i: usize = 0;
    while i < func.inputs.len()
        invariant
            i <= func.inputs.len(),
            input_visitor.cx == cx,
            input_visitor@ == tys_regions(*cx, func.inputs@.take(i as int)),
        decreases func.inputs.len() - i,
    {
        input_visitor.visit_ty(&func.inputs[i]);
        assert(func.inputs@.take(i + 1).drop_last() =~= func.inputs@.take(i as int));
        i += 1;
    }
    assert(func.inputs@.take(func.inputs.len() as int) =~= func.inputs@);
    // extract lifetimes in output type
    if let Some(ty) = &func.output {
        output_visitor.visit_ty(ty);
        proof {
            lemma_join_empty(ty_regions(*cx, *ty));
        }
    }
    let input_lts = match input_visitor.into_vec() {
        Some(lts) => lts_from_bounds(lts, bounds_lts.as_slice()),
        None => return false,
    };
    let output_lts = match output_visitor.into_vec() {
        Some(val) => val,
        None => return false,
    };

    if let Some(body) = body {
        let mut checker = BodyLifetimeChecker { lifetimes_used_in_body: false };
        checker.visit_body(body);
        if checker.lifetimes_used_in_body {
            return false;
        }
    }
    elision_feasible(allowed_lts.as_slice(), input_lts.as_slice(), output_lts.as_slice())
}

} // verus!
