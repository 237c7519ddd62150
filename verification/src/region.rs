//! Region names and the descriptors recorded for region occurrences.

use vstd::prelude::*;

verus! {

/// An interned identifier.
pub type Ident = u32;

/// The name carried by a region annotation.
#[derive(Clone, Copy, Debug, PartialEq, Eq, Hash, Structural)]
pub enum Name {
    /// The empty name of an annotation that was not written at all.
    Empty,
    /// The placeholder `'_`.
    Underscore,
    /// The universal region `'static`.
    Static,
    /// A name chosen by the programmer.
    Ident(Ident),
}

/// A source location, as a half-open range of byte offsets.
#[derive(Clone, Copy, Debug, PartialEq, Eq, Hash, Structural)]
pub struct Span {
    pub lo: u32,
    pub hi: u32,
}

/// A region annotation as it occurs in a signature or a body.
#[derive(Clone, Copy, Debug, PartialEq, Eq, Hash, Structural)]
pub struct Lifetime {
    pub name: Name,
}

/// The region of a reference, as the analysis sees it.
#[derive(Clone, Copy, Debug, PartialEq, Eq, Hash, Structural)]
pub enum RefLt {
    /// Left to inference.
    Unnamed,
    /// The universal region.
    Static,
    /// A region with the name given.
    Named(Name),
}

impl Lifetime {
    /// Whether the annotation leaves the region to inference.
    pub open spec fn spec_is_elided(&self) -> bool {
        self.name == Name::Empty || self.name == Name::Underscore
    }

    /// Whether the annotation names the universal region.
    pub open spec fn spec_is_static(&self) -> bool {
        self.name == Name::Static
    }

    /// Whether the annotation leaves the region to inference.
    #[verifier::when_used_as_spec(spec_is_elided)]
    pub fn is_elided(&self) -> (r: bool)
        ensures
            r == self.spec_is_elided(),
    {
        self.name == Name::Empty || self.name == Name::Underscore
    }

    /// Whether the annotation names the universal region.
    #[verifier::when_used_as_spec(spec_is_static)]
    pub fn is_static(&self) -> (r: bool)
        ensures
            r == self.spec_is_static(),
    {
        self.name == Name::Static
    }
}

/// The descriptor that one region annotation yields: `Static` for the
/// universal region, `Unnamed` where the region is left to inference, else
/// the name written.
pub open spec fn descriptor(lt: Lifetime) -> RefLt {
    if lt.name == Name::Static {
        RefLt::Static
    } else if lt.spec_is_elided() {
        RefLt::Unnamed
    } else {
        RefLt::Named(lt.name)
    }
}

} // verus!
