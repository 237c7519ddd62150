//! Looks for region names written in a function body.

use vstd::prelude::*;
use crate::region::{Lifetime, Name};
use crate::signature::Body;

verus! {

/// Whether an annotation writes out the name of a region other than the
/// universal one.
pub open spec fn names_region(lt: Lifetime) -> bool {
    lt.name != Name::Empty && lt.name != Name::Static
}

/// Whether some annotation in `body` names a region.
pub open spec fn body_names_region(body: Body) -> bool
    decreases body,
{
    ||| exists|i: int| 0 <= i < body.lifetimes@.len() && names_region(#[trigger] body.lifetimes@[i])
    ||| bodies_name_region(body.children@)
}

/// Whether some annotation in one of `bodies` names a region.
pub open spec fn bodies_name_region(bodies: Seq<Body>) -> bool
    decreases bodies,
{
    if bodies.len() == 0 {
        false
    } else {
        bodies_name_region(bodies.drop_last()) || body_names_region(bodies.last())
    }
}

/// Walks a body and notes whether a region is named in it.
pub struct BodyLifetimeChecker {
    pub lifetimes_used_in_body: bool,
}

impl BodyLifetimeChecker {
    /// Notes `lifetime` if it names a region.
    pub fn visit_lifetime(&mut self, lifetime: &Lifetime)
        ensures
            final(self).lifetimes_used_in_body == (old(self).lifetimes_used_in_body
                || names_region(*lifetime)),
    {
        if lifetime.name != Name::Empty && lifetime.name != Name::Static {
            self.lifetimes_used_in_body = true;
        }
    }

    /// Walks `body` and everything below it.
    pub fn visit_body(&mut self, body: &Body)
        ensures
            final(self).lifetimes_used_in_body == (old(self).lifetimes_used_in_body
                || body_names_region(*body)),
        decreases body,
    {
        let mut i: usize = 0;
        while i < body.lifetimes.len()
            invariant
                i <= body.lifetimes.len(),
                self.lifetimes_used_in_body == (old(self).lifetimes_used_in_body || exists|k: int|
                    0 <= k < i && names_region(#[trigger] body.lifetimes@[k])),
            decreases body.lifetimes.len() - i,
        {
            self.visit_lifetime(&body.lifetimes[i]);
            i += 1;
        }
        let mut j: usize = 0;
        let ghost here = self.lifetimes_used_in_body;
        while j < body.children.len()
            invariant
                j <= body.children.len(),
                self.lifetimes_used_in_body == (here || bodies_name_region(
                    body.children@.take(j as int),
                )),
            decreases body.children.len() - j,
        {
            self.visit_body(&body.children[j]);
            assert(body.children@.take(j + 1).drop_last() =~= body.children@.take(j as int));
            j += 1;
        }
        assert(body.children@.take(body.children.len() as int) =~= body.children@);
    }
}

} // verus!
