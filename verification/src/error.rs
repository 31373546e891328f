//! Errors reported while lowering a syntax tree.

use vstd::prelude::*;

verus! {

/// The kinds of failure that lowering can report. Each one aborts the
/// lowering of the whole module.
#[derive(Debug, Clone, Copy, PartialEq, Eq, Structural)]
pub enum LIRErrorType {
    /// A name that no scope, or the function table, declares.
    UnresolvedIdent,
    /// Two types that had to agree do not, and no coercion applies.
    MismatchedTypes,
    /// A call with the wrong number of arguments.
    ArgCountMismatch,
    /// A declaration initialised with an expression that has no value.
    VoidValue,
    /// An assignment whose target is not assignable.
    InvalidLValueExpr,
    /// An assignment to an immutable binding.
    ImmutAssign,
    /// A condition that is not boolean.
    IllegalConditionExpr,
    /// A `break` with no loop around it.
    BreakOutsideLoop,
}

/// A lowering error.
#[derive(Debug, Clone, Copy, PartialEq, Eq, Structural)]
pub struct LIRError {
    pub ty: LIRErrorType,
}

impl LIRError {
    /// An error of the given kind.
    pub fn new(ty: LIRErrorType) -> (r: LIRError)
        ensures
            r.ty == ty,
    {
        LIRError { ty }
    }
}

} // verus!
