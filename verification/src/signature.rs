//! The shape of a function signature, as far as the analysis reads it.

use vstd::prelude::*;
use crate::region::{Ident, Lifetime, Span};

verus! {

/// Identifies the declaration that a path refers to.
pub type DefId = u32;

/// A type expression.
#[derive(Debug)]
pub enum Ty {
    /// A reference, `&'a T` or `&T`, with the annotation it carries and the
    /// type it points to.
    Rptr(Lifetime, Box<Ty>),
    /// A path to a named type or trait.
    Path(Path),
    /// An opaque existential type: the path to its declaration, and the bounds
    /// that the declaration lists.
    Opaque(Path, Vec<GenericBound>),
    /// A trait object, with its bounds and the region it carries.
    TraitObject(Vec<PolyTraitRef>, Lifetime),
    /// Any other type, with the types and regions directly inside it, in
    /// source order.
    Other(Vec<GenericArg>),
}

/// One generic argument, or one child of a composite type.
#[derive(Debug)]
pub enum GenericArg {
    /// A region.
    Lifetime(Lifetime),
    /// A type.
    Type(Ty),
}

/// A path with the generic arguments written after its last segment.
#[derive(Debug)]
pub struct Path {
    pub def: DefId,
    pub args: Vec<GenericArg>,
}

/// A trait bound, possibly under a `for<..>` binder.
#[derive(Debug)]
pub struct PolyTraitRef {
    pub bound_generic_params: Vec<GenericParam>,
    pub trait_ref: Path,
}

/// One bound of a bound list.
#[derive(Debug)]
pub enum GenericBound {
    /// A trait that must be implemented.
    Trait(PolyTraitRef),
    /// A region that must be outlived.
    Outlives(Lifetime),
}

/// What a generic parameter stands for.
#[derive(Clone, Copy, Debug, PartialEq, Eq, Structural)]
pub enum GenericParamKind {
    /// A region.
    Lifetime,
    /// A type.
    Type,
}

/// A declared generic parameter with the bounds written at its declaration.
#[derive(Debug)]
pub struct GenericParam {
    pub name: Ident,
    pub span: Span,
    pub kind: GenericParamKind,
    pub bounds: Vec<GenericBound>,
}

/// One predicate of a `where` clause.
#[derive(Debug)]
pub enum WherePredicate {
    /// `'a: 'b + 'c`
    RegionPredicate { lifetime: Lifetime, bounds: Vec<GenericBound> },
    /// `for<'c> Foo<'c>: Trait<'c>`
    BoundPredicate {
        bound_generic_params: Vec<GenericParam>,
        bounded_ty: Ty,
        bounds: Vec<GenericBound>,
    },
    /// `T = U`
    EqPredicate { lhs_ty: Ty, rhs_ty: Ty },
}

/// Parameter types and return type.
#[derive(Debug)]
pub struct FnDecl {
    pub inputs: Vec<Ty>,
    pub output: Option<Ty>,
}

/// A `where` clause.
#[derive(Debug)]
pub struct WhereClause {
    pub predicates: Vec<WherePredicate>,
}

/// Generic parameters and `where` clause.
#[derive(Debug)]
pub struct Generics {
    pub params: Vec<GenericParam>,
    pub where_clause: WhereClause,
}

/// A whole function signature.
#[derive(Debug)]
pub struct Signature {
    pub decl: FnDecl,
    pub generics: Generics,
}

/// A function body, reduced to a tree whose nodes carry the region
/// annotations written at them.
#[derive(Debug)]
pub struct Body {
    pub lifetimes: Vec<Lifetime>,
    pub children: Vec<Body>,
}

/// What is known of one declaration: how many generic parameters it
/// introduces.
#[derive(Clone, Copy, Debug, PartialEq, Eq, Structural)]
pub struct Declaration {
    pub def: DefId,
    pub generics: usize,
}

/// The index of declarations that paths are resolved against.
#[derive(Debug)]
pub struct Declarations {
    pub entries: Vec<Declaration>,
}

/// The arity that the first entry for `def` among `entries` records.
pub open spec fn arity_in(entries: Seq<Declaration>, def: DefId) -> Option<usize>
    decreases entries.len(),
{
    if entries.len() == 0 {
        None
    } else if entries[0].def == def {
        Some(entries[0].generics)
    } else {
        arity_in(entries.drop_first(), def)
    }
}

impl Declarations {
    /// The number of generic parameters that the declaration of `path`
    /// introduces, if the index knows the declaration.
    pub open spec fn arity(&self, path: Path) -> Option<usize> {
        arity_in(self.entries@, path.def)
    }

    /// Resolves `path` to the number of generic parameters of its declaration.
    pub fn resolve_declaration_arity(&self, path: &Path) -> (r: Option<usize>)
        ensures
            r == self.arity(*path),
    {
        let mut i: usize = 0;
        assert(self.entries@.skip(0) =~= self.entries@);
        while i < self.entries.len()
            invariant
                i <= self.entries.len(),
                arity_in(self.entries@, path.def) == arity_in(
                    self.entries@.skip(i as int),
                    path.def,
                ),
            decreases self.entries.len() - i,
        {
            if self.entries[i].def == path.def {
                return Some(self.entries[i].generics);
            }
            assert(self.entries@.skip(i as int).drop_first() =~= self.entries@.skip(i + 1));
            i += 1;
        }
        None
    }
}

} // verus!
