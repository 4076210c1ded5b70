//! Generates runtime type-guard source for TypeScript interfaces.
//!
//! The library discovers interface and enum declarations in a modeled
//! syntax tree, records calls to validator-named functions in root
//! files, resolves import specifiers under a configurable policy, and
//! compiles the collected shapes into the text of runtime validator
//! functions, with an incremental merge mode for adding one validator
//! to an existing output file.

use vstd::prelude::*;

pub mod ast;
pub mod config;
pub mod decl;
pub mod extract;
pub mod generator;
pub mod laws;
pub mod merge;
pub mod pattern;
pub mod registry;
pub mod semantics;
pub mod resolve;
pub mod text;

pub use config::Config;

verus! {

} // verus!
