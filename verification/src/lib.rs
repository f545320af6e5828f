//! A small, typed, tree-shaped intermediate representation for function
//! bodies, used as a lowering target late in a compilation pipeline.
//!
//! The representation exists in two structurally identical tiers:
//! [`sir`], the resolved tier, identifies functions by a stable
//! compiler-assigned [`sir::DefId`] and supports compile-time constant
//! parameters; [`lang`], the symbolic tier, identifies functions by name and
//! has no constant parameters.
//!
//! Every structural operation (sub-term search, substitution, type
//! derivation, recursion detection, canonical rendering) carries a contract
//! stated over the mathematical views of the trees.

pub mod lang;
pub mod op;
pub mod sir;
pub mod text;
