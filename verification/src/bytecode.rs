//! The decoded guest instruction set and the function handle the
//! interpreter executes.
//!
//! Only the instructions the interpreter lowers to constraints are
//! represented; the loader hands anything else back as an error before a
//! frame is built.

use vstd::prelude::*;

verus! {

/// One decoded guest instruction.
///
/// Branch targets and the boundaries derived from them are program-counter
/// values, so code is limited to `u16` addressing.
#[derive(Clone, Copy, Debug, PartialEq, Eq, Structural)]
pub enum Bytecode {
    /// Push an 8-bit integer literal.
    LdU8(u8),
    /// Push a 64-bit integer literal.
    LdU64(u64),
    /// Push a 128-bit integer literal.
    LdU128(u128),
    /// Push the boolean literal true.
    LdTrue,
    /// Push the boolean literal false.
    LdFalse,
    /// Discard the top of the evaluation stack.
    Pop,
    Add,
    Sub,
    Mul,
    Eq,
    /// Halt the block and return from the current function.
    Ret,
    /// Halt the block and call the function with this handle index.
    Call(u16),
    /// Push a copy of a local slot.
    CopyLoc(u8),
    /// Pop into a local slot.
    StLoc(u8),
    /// Move a local slot's value out, leaving the slot unset.
    MoveLoc(u8),
    /// Jump to the offset when the popped condition is known true.
    BrTrue(u16),
    /// Jump to the offset when the popped condition is known false.
    BrFalse(u16),
    /// Unconditional jump to the offset.
    Branch(u16),
    /// Abort the whole call with the popped value as code.
    Abort,
}

/// The largest code size a block may address.
pub const MAX_CODE_LEN: usize = 65535;

/// An immutable handle to one decoded guest function.
#[derive(Clone, Debug)]
pub struct Function {
    pub code: Vec<Bytecode>,
}

impl Function {
    /// The instruction sequence fits `u16` addressing.
    pub open spec fn wf(self) -> bool {
        self.code@.len() <= MAX_CODE_LEN
    }

    pub open spec fn spec_code(self) -> Seq<Bytecode> {
        self.code@
    }

    pub fn new(code: Vec<Bytecode>) -> (r: Self)
        requires
            code@.len() <= MAX_CODE_LEN,
        ensures
            r.wf(),
            r.spec_code() == code@,
    {
        Function { code }
    }

    /// The decoded instruction sequence.
    pub fn code(&self) -> (r: &Vec<Bytecode>)
        ensures
            r@ == self.spec_code(),
    {
        &self.code
    }
}

} // verus!
