//! The interpreter state a frame executes against: the evaluation stack,
//! a step counter, and the stack of enclosing branch conditions.
//!
//! The driver that resolves calls and reacts to exit statuses sits above
//! this core; frames only read and mutate this shared state.

use vstd::prelude::*;

use crate::stack::EvalStack;

verus! {

/// The shared interpretation state.
pub struct Interpreter {
    /// The evaluation stack of the current execution.
    pub stack: EvalStack,
    /// Count of executed instructions; a run that would exceed this
    /// counter's range fails fatally rather than wrapping it.
    pub step: u64,
    /// The conditions of the conditional constructs currently being
    /// materialized, innermost last; the top is handed to the chip so a
    /// backend can multiplex an arm's effects by its branch condition.
    pub conditions: EvalStack,
}

impl Interpreter {
    pub fn new() -> (r: Self)
        ensures
            r.stack@ =~= Seq::<crate::value::Value>::empty(),
            r.conditions@ =~= Seq::<crate::value::Value>::empty(),
            r.step == 0,
    {
        Interpreter { stack: EvalStack::new(), step: 0, conditions: EvalStack::new() }
    }

    /// Count one executed instruction.
    pub fn bump_step(&mut self)
        requires
            old(self).step < u64::MAX,
        ensures
            final(self).stack == old(self).stack,
            final(self).conditions == old(self).conditions,
            final(self).step == old(self).step + 1,
    {
        self.step = self.step + 1;
    }
}

} // verus!
