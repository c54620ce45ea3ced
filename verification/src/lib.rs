//! Structural validation of a concrete syntax tree: the checks for trees
//! the grammar deliberately over-accepts, each reported as a diagnostic
//! with the range it covers and, where one exists, a quick fix.

pub mod kind;
pub mod tree;
pub mod error;
pub mod ast;
pub mod capability;
pub mod names;
pub mod items;
pub mod members;
pub mod binders;
pub mod exprs;
pub mod records;
pub mod validation;
pub mod provenance;

use vstd::prelude::*;

verus! {

} // verus!
