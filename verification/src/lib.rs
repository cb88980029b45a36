//! A static range-constraint resolver for a small imperative expression
//! language.
//!
//! Numeric variables carry an optional named constraint: a union of integer
//! intervals the value may lie in.  The resolver walks a linear sequence of
//! statements (assignments, range assertions, and bare expressions) against a
//! table of declared functions and computes, for every assignment, the
//! tightest statically derivable constraint for the assigned variable.

pub mod ast;
pub mod diag;
pub mod scope;
pub mod semantics;
pub mod resolver;
pub mod text;
