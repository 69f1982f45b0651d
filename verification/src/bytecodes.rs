//! Standalone handlers for single instructions, usable against a bare
//! evaluation stack and constraint backend.

use vstd::prelude::*;

use crate::circuit::{is_sum_gate, spec_known_both, EvaluationChip};
use crate::errors::{StatusCode, VmResult};
use crate::field::{f_add, Fr};
use crate::stack::EvalStack;
use crate::value::{all_live, MoveValueType, Value};

verus! {

/// The addition instruction: pop two operands, lower one sum gate, push
/// the result wire.
#[derive(Clone, Copy, Debug, PartialEq, Eq, Structural)]
pub struct Add;

impl Add {
    /// With two live operands on the stack, the run succeeds, records
    /// exactly one constraint, and replaces the operands by a result wire
    /// whose value is their field sum exactly when both were known.
    pub fn execute(&self, stack: &mut EvalStack, chip: &mut EvaluationChip) -> (r: VmResult<()>)
        requires
            all_live(old(stack)@),
            old(stack)@.len() <= crate::stack::EVAL_STACK_SIZE,
        ensures
            all_live(final(stack)@),
            old(stack)@.len() < 2 ==> (r matches Err(e) && e.status == StatusCode::StackUnderflow)
                && *final(chip) == *old(chip),
            old(stack)@.len() == 0 ==> *final(stack) == *old(stack),
            old(stack)@.len() == 1 ==> final(stack)@ == old(stack)@.drop_last(),
            old(stack)@.len() >= 2 ==> ({
                let left = old(stack)@.last();
                let right = old(stack)@[old(stack)@.len() - 2];
                &&& r is Ok
                &&& final(chip).constraints@.len() == old(chip).constraints@.len() + 1
                &&& old(chip).constraints@.is_prefix_of(final(chip).constraints@)
                &&& is_sum_gate(
                    final(chip).constraints@.last(),
                    left,
                    right,
                    old(chip).wire_values@.len() as usize,
                )
                &&& final(stack)@.len() == old(stack)@.len() - 1
                &&& final(stack)@.drop_last() == old(stack)@.drop_last().drop_last()
                &&& final(stack)@.last() matches Value::Variable(fv)
                &&& (match spec_known_both(left, right, |x: int, y: int| f_add(x, y)) {
                    Some(x) => fv.value matches Some(c) && c.as_int() == x,
                    None => fv.value is None,
                })
            }),
    {
        let left = stack.pop()?;
        let right = stack.pop()?;
        let result = chip.add(&left, &right, None)?;
        stack.push(result)
    }
}

/// The 8-bit literal instruction: materialize the constant and push it.
#[derive(Clone, Copy, Debug, PartialEq, Eq, Structural)]
pub struct LdU8(pub u8);

impl LdU8 {
    /// Materialize the literal on a fresh wire and push it; no constraint
    /// is recorded.  Fails only when the stack is full.
    pub fn execute(&self, stack: &mut EvalStack, chip: &mut EvaluationChip) -> (r: VmResult<()>)
        ensures
            final(chip).constraints@ == old(chip).constraints@,
            final(chip).wire_values@.len() == old(chip).wire_values@.len() + 1,
            old(stack)@.len() >= crate::stack::EVAL_STACK_SIZE ==> (r matches Err(e) && e.status
                == StatusCode::StackOverflow),
            old(stack)@.len() < crate::stack::EVAL_STACK_SIZE ==> ({
                &&& r is Ok
                &&& final(stack)@.len() == old(stack)@.len() + 1
                &&& final(stack)@.drop_last() == old(stack)@
                &&& final(stack)@.last() matches Value::Constant(c)
                &&& c.value.as_int() == self.0 as int
                &&& c.ty == MoveValueType::U8
            }),
    {
        let value = chip.load_constant(Fr::from_u64(self.0 as u64), MoveValueType::U8);
        stack.push(value)
    }
}

} // verus!
