//! Diagnostics: the error kinds a resolution run can end with, and the
//! failure record that ties an error to the statement it arose at.
//!
//! Every failure is fatal to the run: the driver stops at the first error
//! and reports it together with the index of the offending statement.

use vstd::prelude::*;
use crate::ast::{Constraint, ConstraintV, Id};

verus! {

/// The reason a resolution run failed.
#[derive(Debug, PartialEq, Eq)]
pub enum ResolveError {
    /// A reference to, or an assertion on, a name absent from scope.
    UndefinedVariable(Id),
    /// A call to a name absent from the function table.
    UndefinedFunction(Id),
    /// A call whose arity differs from the declaration.
    ArgumentCountMismatch { function: Id, expected: usize, actual: usize },
    /// A call argument whose derived range set is not covered by the
    /// declared parameter constraint.
    ArgumentConstraintViolation {
        function: Id,
        index: usize,
        argument: Constraint,
        declared: Constraint,
    },
    /// An assignment expression outside statement position.
    NestedAssignmentNotAllowed,
}

/// The mathematical value of a `ResolveError`.
pub enum ErrorV {
    UndefinedVariable(Seq<char>),
    UndefinedFunction(Seq<char>),
    ArgumentCountMismatch { function: Seq<char>, expected: int, actual: int },
    ArgumentConstraintViolation {
        function: Seq<char>,
        index: int,
        argument: ConstraintV,
        declared: ConstraintV,
    },
    NestedAssignmentNotAllowed,
}

impl View for ResolveError {
    type V = ErrorV;

    open spec fn view(&self) -> ErrorV {
        match self {
            ResolveError::UndefinedVariable(id) => ErrorV::UndefinedVariable(id@),
            ResolveError::UndefinedFunction(id) => ErrorV::UndefinedFunction(id@),
            ResolveError::ArgumentCountMismatch { function, expected, actual } =>
                ErrorV::ArgumentCountMismatch {
                function: function@,
                expected: *expected as int,
                actual: *actual as int,
            },
            ResolveError::ArgumentConstraintViolation { function, index, argument, declared } =>
                ErrorV::ArgumentConstraintViolation {
                function: function@,
                index: *index as int,
                argument: argument@,
                declared: declared@,
            },
            ResolveError::NestedAssignmentNotAllowed => ErrorV::NestedAssignmentNotAllowed,
        }
    }
}

/// A fatal diagnostic: the error and the index of the statement where the
/// run stopped.
#[derive(Debug, PartialEq, Eq)]
pub struct ResolveFailure {
    pub statement: usize,
    pub error: ResolveError,
}

/// The mathematical value of a `ResolveFailure`.
pub struct FailureV {
    pub statement: int,
    pub error: ErrorV,
}

impl View for ResolveFailure {
    type V = FailureV;

    open spec fn view(&self) -> FailureV {
        FailureV { statement: self.statement as int, error: self.error@ }
    }
}

} // verus!
