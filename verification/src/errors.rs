//! Error model of the interpreter.
//!
//! Every failure of an interpretation pass is reported as a `RuntimeError`
//! carrying a `StatusCode`; no error is retried internally.

use vstd::prelude::*;

verus! {

/// The reason an interpretation pass failed.
#[derive(Clone, Copy, Debug, PartialEq, Eq, Structural)]
pub enum StatusCode {
    /// An evaluation-, call- or suspend-stack bound was exceeded.
    StackOverflow,
    /// A pop was attempted on an empty stack.
    StackUnderflow,
    /// A local-slot index lay outside the frame's declared size.
    OutOfBounds,
    /// A local slot holding no usable value was copied.
    CopyLocalError,
    /// A local slot holding no usable value was moved out.
    MoveLocalError,
    /// The constraint backend failed to allocate a wire or record a constraint.
    SynthesisError,
    /// An operation required a concretely known value but none was available.
    ValueConversionError,
    /// The bytecode around a conditional branch did not match the expected
    /// if/else shape during branch materialization.
    ProgramBlockError,
    /// An internal invariant was violated; a fatal bug, not a user condition.
    ShouldNotReachHere,
    /// The guest program aborted explicitly; carries the abort code.
    MoveAbort(u128),
}

/// A tagged runtime failure.
#[derive(Clone, Copy, Debug, PartialEq, Eq, Structural)]
pub struct RuntimeError {
    pub status: StatusCode,
}

impl RuntimeError {
    pub fn new(status: StatusCode) -> (r: Self)
        ensures
            r.status == status,
    {
        RuntimeError { status }
    }
}

/// Result type of every fallible interpreter operation.
pub type VmResult<T> = Result<T, RuntimeError>;

} // verus!
