//! The items that can carry a function signature.

use vstd::prelude::*;
use crate::signature::{Body, FnDecl, Generics};

verus! {

/// What a free item is.
#[derive(Debug)]
pub enum ItemKind {
    /// A function with its signature and body.
    Fn(FnDecl, Generics, Body),
    /// Anything else.
    Other,
}

/// A free item.
#[derive(Debug)]
pub struct Item {
    pub node: ItemKind,
    /// Whether the item comes out of the expansion of a macro that is defined
    /// in another crate.
    pub in_external_macro: bool,
}

/// The signature of a method, without its generics.
#[derive(Debug)]
pub struct MethodSig {
    pub decl: FnDecl,
}

/// What an item of an `impl` block is.
#[derive(Debug)]
pub enum ImplItemKind {
    /// A method with its body.
    Method(MethodSig, Body),
    /// Anything else.
    Other,
}

/// An item of an `impl` block.
#[derive(Debug)]
pub struct ImplItem {
    pub generics: Generics,
    pub node: ImplItemKind,
    /// Whether the item comes out of the expansion of a macro that is defined
    /// in another crate.
    pub in_external_macro: bool,
}

/// The body of a trait method, if the trait provides one.
#[derive(Debug)]
pub enum TraitMethod {
    /// Only the signature is declared.
    Required,
    /// The trait gives a default body.
    Provided(Body),
}

/// What an item of a trait is.
#[derive(Debug)]
pub enum TraitItemKind {
    /// A method, with its body where the trait provides one.
    Method(MethodSig, TraitMethod),
    /// Anything else.
    Other,
}

/// An item of a trait.
#[derive(Debug)]
pub struct TraitItem {
    pub generics: Generics,
    pub node: TraitItemKind,
    /// Whether the item comes out of the expansion of a macro that is defined
    /// in another crate.
    pub in_external_macro: bool,
}

} // verus!
