//! Variable binding and code generation for a compiler that targets a shell
//! runtime: resolution of names against lexical scopes, promotion of bindings
//! to mangled global names, and the read and write nodes of the syntax tree.
use vstd::prelude::*;

pub mod types;
pub mod token;
pub mod parser;
pub mod scope;
pub mod naming;
pub mod get;
pub mod set;

verus! {

} // verus!
