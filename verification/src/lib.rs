//! Decides, for one function signature, whether its explicit region
//! annotations could be left to elision, and which declared region
//! parameters are never used.
//!
//! [`pass::check_signature`] is the entry point. It takes the signature as a
//! value of [`signature::Signature`], an index of the declarations that the
//! paths of the signature refer to, and the body of the function where there
//! is one. The modules follow the parts of the analysis: [`collect`] walks a
//! type and records the region of each reference, [`where_clause`] looks for
//! regions in the `where` clause, [`elision`] decides from the regions found
//! whether elision would give them back, and [`unused`] finds the declared
//! regions that nothing uses. [`laws`] states what holds of the analysis for
//! every signature.

pub mod region;
pub mod signature;
pub mod items;
pub mod collect;
pub mod allowed;
pub mod body;
pub mod elision;
pub mod where_clause;
pub mod unused;
pub mod pass;
pub mod laws;
