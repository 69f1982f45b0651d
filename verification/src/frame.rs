//! The control-flow engine: locals, blocks, conditional blocks and frames.
//!
//! A frame executes one guest function activation.  Ordinary control flow
//! is run in place; a conditional branch whose condition is not concretely
//! known is materialized into explicit true/false arms, both of which are
//! executed and constrained exactly once before control merges back, so
//! that the single circuit is valid for either outcome.

use vstd::pervasive::unreached;
use vstd::pervasive::VecAdditionalExecFns;
use vstd::prelude::*;

use crate::bytecode::{Bytecode, Function, MAX_CODE_LEN};
use crate::circuit::{spec_gate_for, spec_known_both, spec_value_fn, BinOp, EvaluationChip};
use crate::errors::{RuntimeError, StatusCode, VmResult};
use crate::field::{Fr, FIELD_MODULUS};
use crate::interpreter::Interpreter;
use crate::stack::{BlockStack, EVAL_STACK_SIZE};
use crate::value::{all_live, Cell, FConstant, FVariable, MoveValueType, Value};

verus! {

/// The slots of a fresh locals table: every slot starts unset.
pub open spec fn spec_new_locals(n: nat) -> Seq<Value> {
    Seq::new(n, |i: int| Value::Invalid)
}

/// What copying a local slot returns: an out-of-range index is always an
/// error, and so is reading a slot that holds no usable value.
pub open spec fn spec_copy_local(s: Seq<Value>, i: int) -> Result<Value, RuntimeError> {
    if !(0 <= i < s.len()) {
        Err(RuntimeError { status: StatusCode::OutOfBounds })
    } else if s[i] is Invalid {
        Err(RuntimeError { status: StatusCode::CopyLocalError })
    } else {
        Ok(s[i])
    }
}

/// What storing into a local slot does: any in-range slot is overwritten
/// unconditionally, even an unset one.
pub open spec fn spec_store_local(s: Seq<Value>, i: int, v: Value) -> Result<
    Seq<Value>,
    RuntimeError,
> {
    if !(0 <= i < s.len()) {
        Err(RuntimeError { status: StatusCode::OutOfBounds })
    } else {
        Ok(s.update(i, v))
    }
}

/// What moving a local slot out does: the value leaves and the slot is
/// left unset, so a second read fails.
pub open spec fn spec_move_local(s: Seq<Value>, i: int) -> Result<(Value, Seq<Value>), RuntimeError> {
    if !(0 <= i < s.len()) {
        Err(RuntimeError { status: StatusCode::OutOfBounds })
    } else if s[i] is Invalid {
        Err(RuntimeError { status: StatusCode::MoveLocalError })
    } else {
        Ok((s[i], s.update(i, Value::Invalid)))
    }
}

/// On a fresh locals table every copy fails: no slot holds a value yet.
pub proof fn lemma_fresh_copy_fails(n: nat, i: int)
    requires
        0 <= i < n,
    ensures
        spec_copy_local(spec_new_locals(n), i) == Err::<Value, RuntimeError>(
            RuntimeError { status: StatusCode::CopyLocalError },
        ),
{
}

/// After a store, a copy of the same slot returns exactly the stored value.
pub proof fn lemma_store_then_copy(s: Seq<Value>, i: int, v: Value)
    requires
        0 <= i < s.len(),
        !(v is Invalid),
    ensures
        spec_store_local(s, i, v) matches Ok(s2) && spec_copy_local(s2, i) == Ok::<
            Value,
            RuntimeError,
        >(v),
{
}

/// After a move, both a copy and a second move of the slot fail.
pub proof fn lemma_move_empties_slot(s: Seq<Value>, i: int)
    requires
        spec_move_local(s, i) is Ok,
    ensures
        spec_move_local(s, i) matches Ok(p) && spec_copy_local(p.1, i) == Err::<
            Value,
            RuntimeError,
        >(RuntimeError { status: StatusCode::CopyLocalError }) && spec_move_local(p.1, i) == Err::<
            (Value, Seq<Value>),
            RuntimeError,
        >(RuntimeError { status: StatusCode::MoveLocalError }),
{
}

/// Every locals operation on an out-of-range index fails the same way.
pub proof fn lemma_locals_out_of_bounds(s: Seq<Value>, i: int, v: Value)
    requires
        i >= s.len(),
    ensures
        spec_copy_local(s, i) == Err::<Value, RuntimeError>(
            RuntimeError { status: StatusCode::OutOfBounds },
        ),
        spec_store_local(s, i, v) == Err::<Seq<Value>, RuntimeError>(
            RuntimeError { status: StatusCode::OutOfBounds },
        ),
        spec_move_local(s, i) == Err::<(Value, Seq<Value>), RuntimeError>(
            RuntimeError { status: StatusCode::OutOfBounds },
        ),
{
}

/// The per-frame local-variable slots, with the guest language's
/// move/copy/store discipline.
pub struct Locals {
    slots: Vec<Value>,
}

impl View for Locals {
    type V = Seq<Value>;

    closed spec fn view(&self) -> Seq<Value> {
        self.slots@
    }
}

impl Locals {
    /// A table of `size` slots, all unset.
    pub fn new(size: usize) -> (r: Self)
        ensures
            r@ =~= spec_new_locals(size as nat),
    {
        let mut slots: Vec<Value> = Vec::new();
        let mut i: usize = 0;
        while i < size
            invariant
                i <= size,
                slots@ =~= spec_new_locals(i as nat),
            decreases size - i,
        {
            slots.push(Value::Invalid);
            proof {
                assert(slots@ =~= spec_new_locals((i + 1) as nat));
            }
            i = i + 1;
        }
        Locals { slots }
    }

    pub fn len(&self) -> (n: usize)
        ensures
            n == self@.len(),
    {
        self.slots.len()
    }

    /// Copy a slot's value, leaving the slot as it is.
    pub fn copy(&self, index: usize) -> (r: VmResult<Value>)
        ensures
            r == spec_copy_local(self@, index as int),
    {
        if index >= self.slots.len() {
            Err(RuntimeError::new(StatusCode::OutOfBounds))
        } else {
            let v = self.slots[index];
            if v.is_invalid() {
                Err(RuntimeError::new(StatusCode::CopyLocalError))
            } else {
                Ok(v)
            }
        }
    }

    /// Overwrite a slot unconditionally.
    pub fn store(&mut self, index: usize, value: Value) -> (r: VmResult<()>)
        ensures
            spec_store_local(old(self)@, index as int, value) matches Ok(s2) ==> r is Ok
                && final(self)@ == s2,
            spec_store_local(old(self)@, index as int, value) matches Err(e) ==> r == Err::<
                (),
                RuntimeError,
            >(e) && *final(self) == *old(self),
    {
        if index >= self.slots.len() {
            Err(RuntimeError::new(StatusCode::OutOfBounds))
        } else {
            self.slots.set(index, value);
            Ok(())
        }
    }

    /// Move a slot's value out, leaving the slot unset.
    pub fn move_(&mut self, index: usize) -> (r: VmResult<Value>)
        ensures
            spec_move_local(old(self)@, index as int) matches Ok(p) ==> r == Ok::<
                Value,
                RuntimeError,
            >(p.0) && final(self)@ == p.1,
            spec_move_local(old(self)@, index as int) matches Err(e) ==> r == Err::<
                Value,
                RuntimeError,
            >(e) && *final(self) == *old(self),
    {
        if index >= self.slots.len() {
            Err(RuntimeError::new(StatusCode::OutOfBounds))
        } else {
            let v = self.slots[index];
            if v.is_invalid() {
                Err(RuntimeError::new(StatusCode::MoveLocalError))
            } else {
                self.slots.set(index, Value::Invalid);
                Ok(v)
            }
        }
    }
}

/// The control-flow event a block or frame reports upward after a run.
#[derive(Clone, Copy, Debug, PartialEq, Eq, Structural)]
pub enum ExitStatus {
    /// The current function returned.
    Return,
    /// The current function calls the function with this handle index.
    Call(u16),
    /// A branch condition was not concretely known; the frame must
    /// materialize explicit arms at this program counter.
    ConditionalBranch(u16),
    /// A branch arm reached its end boundary at this program counter.
    BranchEnd(u16),
}

/// What a conditional branch instruction does with its popped condition.
#[derive(Clone, Copy, Debug, PartialEq, Eq, Structural)]
pub enum BranchDecision {
    /// The condition is known and satisfies the branch predicate: jump.
    Jump,
    /// The condition is known and fails the predicate: fall through.
    FallThrough,
    /// The condition is unknown: both arms must be materialized.
    Materialize,
}

/// The branch decision as a function of the condition value alone.
pub open spec fn spec_branch_decision(cond: Value, expect_true: bool) -> BranchDecision {
    match cond.spec_value() {
        None => BranchDecision::Materialize,
        Some(f) => if (expect_true && f.as_int() == 1) || (!expect_true && f.as_int() == 0) {
            BranchDecision::Jump
        } else {
            BranchDecision::FallThrough
        },
    }
}

/// A concretely known branch condition is never materialized into arms.
pub proof fn lemma_known_condition_never_materializes(cond: Value, expect_true: bool)
    requires
        cond.is_known(),
    ensures
        spec_branch_decision(cond, expect_true) != BranchDecision::Materialize,
{
}

/// An unknown branch condition always requires materialization.
pub proof fn lemma_unknown_condition_materializes(cond: Value, expect_true: bool)
    requires
        !cond.is_known(),
    ensures
        spec_branch_decision(cond, expect_true) == BranchDecision::Materialize,
{
}

/// Decide a conditional branch from its popped condition; `expect_true`
/// tells whether the instruction jumps on one (true) or on zero (false).
pub fn branch_decision(cond: &Value, expect_true: bool) -> (d: BranchDecision)
    ensures
        d == spec_branch_decision(*cond, expect_true),
{
    match cond.value() {
        Some(f) => {
            let hit = if expect_true {
                f.is_one()
            } else {
                f.is_zero()
            };
            if hit {
                BranchDecision::Jump
            } else {
                BranchDecision::FallThrough
            }
        },
        None => BranchDecision::Materialize,
    }
}

/// The failure `Abort` raises: with a known value, the guest abort whose
/// code is the value's lower 128 bits; with an unknown value, a conversion
/// error.
pub fn abort_error(value: &Value) -> (r: RuntimeError)
    ensures
        value.is_known() ==> (r.status matches StatusCode::MoveAbort(code) && code as int
            == value.spec_value().unwrap().as_int()),
        !value.is_known() ==> r.status == StatusCode::ValueConversionError,
{
    match value.value() {
        Some(f) => RuntimeError::new(StatusCode::MoveAbort(f.as_u128())),
        None => RuntimeError::new(StatusCode::ValueConversionError),
    }
}

/// An owned copy of an instruction sequence.
fn copy_code(code: &Vec<Bytecode>) -> (r: Vec<Bytecode>)
    ensures
        r@ == code@,
{
    let mut r: Vec<Bytecode> = Vec::new();
    let mut i: usize = 0;
    while i < code.len()
        invariant
            i <= code@.len(),
            r@ == code@.subrange(0, i as int),
        decreases code@.len() - i,
    {
        r.push(code[i]);
        proof {
            assert(r@ =~= code@.subrange(0, i + 1 as int));
        }
        i = i + 1;
    }
    proof {
        assert(code@.subrange(0, code@.len() as int) =~= code@);
    }
    r
}


/// One step's outcome: fall through to the next instruction, a jump that
/// set the program counter itself, or an exit event for the frame.
#[derive(Clone, Copy, Debug, PartialEq, Eq, Structural)]
pub enum StepResult {
    Next,
    Jumped,
    Exit(ExitStatus),
}

/// A constant freshly materialized on wire `w` with representative `x`.
pub open spec fn is_loaded_constant(v: Value, x: int, ty: MoveValueType, w: int) -> bool {
    &&& v matches Value::Constant(c)
    &&& c.value.as_int() == x
    &&& c.ty == ty
    &&& c.cell matches Some(cell) && cell.index == w
}

/// What a literal-load step does: allocate one wire holding the constant,
/// record no gate, and push the constant; at the stack bound the push
/// fails and the stack is unchanged.
pub open spec fn loaded_push(
    pre: Block,
    post: Block,
    s: Seq<Value>,
    s2: Seq<Value>,
    pre_chip: EvaluationChip,
    post_chip: EvaluationChip,
    r: VmResult<StepResult>,
    x: int,
    ty: MoveValueType,
) -> bool {
    &&& post_chip.constraints@ == pre_chip.constraints@
    &&& post_chip.wire_values@.len() == pre_chip.wire_values@.len() + 1
    &&& (post_chip.wire_values@.last() matches Some(f) && f.as_int() == x)
    &&& post.pc == pre.pc
    &&& if s.len() < EVAL_STACK_SIZE {
        &&& r == Ok::<StepResult, RuntimeError>(StepResult::Next)
        &&& s2.len() == s.len() + 1
        &&& s2.drop_last() == s
        &&& is_loaded_constant(s2.last(), x, ty, pre_chip.wire_values@.len() as int)
    } else {
        &&& (r matches Err(e) && e.status == StatusCode::StackOverflow)
        &&& s2 == s
    }
}

/// What a binary-operation step does: pop the right then the left operand
/// (the comparison pops in the opposite order), record exactly one gate
/// over them, allocate the result wire, and push a result variable whose
/// value is known exactly when both operands were.
pub open spec fn arith_post(
    pre: Block,
    post: Block,
    s: Seq<Value>,
    s2: Seq<Value>,
    pre_chip: EvaluationChip,
    post_chip: EvaluationChip,
    r: VmResult<StepResult>,
    op: BinOp,
) -> bool {
    if s.len() < 1 {
        &&& (r matches Err(e) && e.status == StatusCode::StackUnderflow)
        &&& s2 == s
        &&& post_chip == pre_chip
        &&& post.pc == pre.pc
    } else if s.len() < 2 {
        &&& (r matches Err(e) && e.status == StatusCode::StackUnderflow)
        &&& s2 == s.drop_last()
        &&& post_chip == pre_chip
        &&& post.pc == pre.pc
    } else {
        let top = s.last();
        let second = s[s.len() - 2];
        let left = if op is Eq {
            top
        } else {
            second
        };
        let right = if op is Eq {
            second
        } else {
            top
        };
        &&& post_chip.constraints@.len() == pre_chip.constraints@.len() + 1
        &&& pre_chip.constraints@.is_prefix_of(post_chip.constraints@)
        &&& spec_gate_for(
            op,
            post_chip.constraints@.last(),
            left,
            right,
            pre_chip.wire_values@.len() as usize,
        )
        &&& post_chip.wire_values@.len() == pre_chip.wire_values@.len() + 1
        &&& post.pc == pre.pc
        &&& if s.len() - 2 < EVAL_STACK_SIZE {
            &&& r == Ok::<StepResult, RuntimeError>(StepResult::Next)
            &&& s2.len() == s.len() - 1
            &&& s2.drop_last() == s.drop_last().drop_last()
            &&& (s2.last() matches Value::Variable(fv) && fv.ty == (
            if op is Eq {
                MoveValueType::Bool
            } else {
                left.spec_ty()
            }) && (fv.cell matches Some(c) && c.index == pre_chip.wire_values@.len()) && (
            match spec_known_both(left, right, |x: int, y: int| spec_value_fn(op, x, y)) {
                Some(x) => fv.value matches Some(f) && f.as_int() == x,
                None => fv.value is None,
            }))
        } else {
            &&& (r matches Err(e) && e.status == StatusCode::StackOverflow)
            &&& s2 == s.drop_last().drop_last()
        }
    }
}

/// What a conditional branch step does with its popped condition.
pub open spec fn branch_post(
    pre: Block,
    post: Block,
    s: Seq<Value>,
    s2: Seq<Value>,
    pre_chip: EvaluationChip,
    post_chip: EvaluationChip,
    r: VmResult<StepResult>,
    offset: u16,
    expect_true: bool,
) -> bool {
    &&& post_chip == pre_chip
    &&& if s.len() == 0 {
        &&& (r matches Err(e) && e.status == StatusCode::StackUnderflow)
        &&& s2 == s
        &&& post.pc == pre.pc
    } else {
        &&& s2 == s.drop_last()
        &&& match spec_branch_decision(s.last(), expect_true) {
            BranchDecision::Jump => r == Ok::<StepResult, RuntimeError>(StepResult::Jumped)
                && post.pc == offset,
            BranchDecision::FallThrough => r == Ok::<StepResult, RuntimeError>(StepResult::Next)
                && post.pc == pre.pc,
            BranchDecision::Materialize => r == Ok::<StepResult, RuntimeError>(
                StepResult::Exit(ExitStatus::ConditionalBranch(pre.pc)),
            ) && post.pc == pre.pc,
        }
    }
}

/// Neither the stack, the locals nor the constraint system change.
pub open spec fn no_step_effect(
    s: Seq<Value>,
    s2: Seq<Value>,
    l: Seq<Value>,
    l2: Seq<Value>,
    pre_chip: EvaluationChip,
    post_chip: EvaluationChip,
) -> bool {
    s2 == s && l2 == l && post_chip == pre_chip
}

/// The exact effect of the instruction at the block's program counter on
/// the block, the evaluation stack, the locals and the constraint system.
pub open spec fn step_post(
    pre: Block,
    post: Block,
    s: Seq<Value>,
    s2: Seq<Value>,
    l: Seq<Value>,
    l2: Seq<Value>,
    pre_chip: EvaluationChip,
    post_chip: EvaluationChip,
    r: VmResult<StepResult>,
) -> bool {
    match pre.code@[pre.pc as int] {
        Bytecode::LdU8(v) => l2 == l && loaded_push(
            pre,
            post,
            s,
            s2,
            pre_chip,
            post_chip,
            r,
            v as int,
            MoveValueType::U8,
        ),
        Bytecode::LdU64(v) => l2 == l && loaded_push(
            pre,
            post,
            s,
            s2,
            pre_chip,
            post_chip,
            r,
            v as int % (FIELD_MODULUS as int),
            MoveValueType::U64,
        ),
        Bytecode::LdU128(v) => l2 == l && loaded_push(
            pre,
            post,
            s,
            s2,
            pre_chip,
            post_chip,
            r,
            v as int % (FIELD_MODULUS as int),
            MoveValueType::U128,
        ),
        Bytecode::LdTrue => l2 == l && loaded_push(
            pre,
            post,
            s,
            s2,
            pre_chip,
            post_chip,
            r,
            1,
            MoveValueType::Bool,
        ),
        Bytecode::LdFalse => l2 == l && loaded_push(
            pre,
            post,
            s,
            s2,
            pre_chip,
            post_chip,
            r,
            0,
            MoveValueType::Bool,
        ),
        Bytecode::Pop => {
            &&& l2 == l
            &&& post_chip == pre_chip
            &&& post.pc == pre.pc
            &&& if s.len() > 0 {
                r == Ok::<StepResult, RuntimeError>(StepResult::Next) && s2 == s.drop_last()
            } else {
                (r matches Err(e) && e.status == StatusCode::StackUnderflow) && s2 == s
            }
        },
        Bytecode::Add => l2 == l && arith_post(
            pre,
            post,
            s,
            s2,
            pre_chip,
            post_chip,
            r,
            BinOp::Add,
        ),
        Bytecode::Sub => l2 == l && arith_post(
            pre,
            post,
            s,
            s2,
            pre_chip,
            post_chip,
            r,
            BinOp::Sub,
        ),
        Bytecode::Mul => l2 == l && arith_post(
            pre,
            post,
            s,
            s2,
            pre_chip,
            post_chip,
            r,
            BinOp::Mul,
        ),
        Bytecode::Eq => l2 == l && arith_post(pre, post, s, s2, pre_chip, post_chip, r, BinOp::Eq),
        Bytecode::Ret => no_step_effect(s, s2, l, l2, pre_chip, post_chip) && post.pc == pre.pc && r
            == Ok::<StepResult, RuntimeError>(StepResult::Exit(ExitStatus::Return)),
        Bytecode::Call(idx) => no_step_effect(s, s2, l, l2, pre_chip, post_chip) && post.pc
            == pre.pc && r == Ok::<StepResult, RuntimeError>(
            StepResult::Exit(ExitStatus::Call(idx)),
        ),
        Bytecode::CopyLoc(v) => {
            &&& l2 == l
            &&& post_chip == pre_chip
            &&& post.pc == pre.pc
            &&& match spec_copy_local(l, v as int) {
                Ok(val) => if s.len() < EVAL_STACK_SIZE {
                    r == Ok::<StepResult, RuntimeError>(StepResult::Next) && s2 == s.push(val)
                } else {
                    (r matches Err(e) && e.status == StatusCode::StackOverflow) && s2 == s
                },
                Err(e0) => r == Err::<StepResult, RuntimeError>(e0) && s2 == s,
            }
        },
        Bytecode::StLoc(v) => {
            &&& post_chip == pre_chip
            &&& post.pc == pre.pc
            &&& if s.len() == 0 {
                (r matches Err(e) && e.status == StatusCode::StackUnderflow) && s2 == s && l2 == l
            } else {
                &&& s2 == s.drop_last()
                &&& match spec_store_local(l, v as int, s.last()) {
                    Ok(lnew) => r == Ok::<StepResult, RuntimeError>(StepResult::Next) && l2 == lnew,
                    Err(e0) => r == Err::<StepResult, RuntimeError>(e0) && l2 == l,
                }
            }
        },
        Bytecode::MoveLoc(v) => {
            &&& post_chip == pre_chip
            &&& post.pc == pre.pc
            &&& match spec_move_local(l, v as int) {
                Ok(p) => {
                    &&& l2 == p.1
                    &&& if s.len() < EVAL_STACK_SIZE {
                        r == Ok::<StepResult, RuntimeError>(StepResult::Next) && s2 == s.push(p.0)
                    } else {
                        (r matches Err(e) && e.status == StatusCode::StackOverflow) && s2 == s
                    }
                },
                Err(e0) => r == Err::<StepResult, RuntimeError>(e0) && s2 == s && l2 == l,
            }
        },
        Bytecode::BrTrue(offset) => l2 == l && branch_post(
            pre,
            post,
            s,
            s2,
            pre_chip,
            post_chip,
            r,
            offset,
            true,
        ),
        Bytecode::BrFalse(offset) => l2 == l && branch_post(
            pre,
            post,
            s,
            s2,
            pre_chip,
            post_chip,
            r,
            offset,
            false,
        ),
        Bytecode::Branch(offset) => no_step_effect(s, s2, l, l2, pre_chip, post_chip) && post.pc
            == offset && r == Ok::<StepResult, RuntimeError>(StepResult::Jumped),
        Bytecode::Abort => {
            &&& l2 == l
            &&& post_chip == pre_chip
            &&& post.pc == pre.pc
            &&& if s.len() == 0 {
                (r matches Err(e) && e.status == StatusCode::StackUnderflow) && s2 == s
            } else {
                &&& s2 == s.drop_last()
                &&& (s.last().is_known() ==> (r matches Err(e) && e.status matches
                StatusCode::MoveAbort(code) && code as int
                    == s.last().spec_value().unwrap().as_int()))
                &&& (!s.last().is_known() ==> (r matches Err(e) && e.status
                    == StatusCode::ValueConversionError))
            }
        },
    }
}


/// The state a block run acts on: the program counter, the step counter,
/// the evaluation stack, the frame's locals, and the witness and gate
/// count of the constraint system.
#[verifier::ext_equal]
pub struct MachineState {
    pub pc: u16,
    pub step: u64,
    pub stack: Seq<Value>,
    pub locals: Seq<Value>,
    pub wires: Seq<Option<Fr>>,
    pub gates: nat,
}

/// The machine state a block, the shared interpreter state, the frame's
/// locals and the constraint system are in.
pub open spec fn machine_of(
    b: Block,
    interp: Interpreter,
    locals: Locals,
    chip: EvaluationChip,
) -> MachineState {
    MachineState {
        pc: b.pc,
        step: interp.step,
        stack: interp.stack@,
        locals: locals@,
        wires: chip.wire_values@,
        gates: chip.constraints@.len(),
    }
}

/// How one instruction leaves the machine.
pub enum SpecOutcome {
    /// Fall through; the program counter is advanced by the caller.
    Next(MachineState),
    /// The instruction set the program counter itself.
    Jumped(MachineState),
    /// An exit event for the frame.
    Exit(MachineState, ExitStatus),
    /// The run fails.
    Fail(MachineState, RuntimeError),
}

/// A literal load: one fresh wire holding the constant, no gate, and the
/// constant pushed; at the stack bound the push fails.
pub open spec fn spec_load(st: MachineState, x: int, ty: MoveValueType) -> SpecOutcome {
    let value = Fr::from_int(x);
    let cell = Cell { index: st.wires.len() as usize };
    let st2 = MachineState { wires: st.wires.push(Some(value)), ..st };
    if st.stack.len() < EVAL_STACK_SIZE {
        SpecOutcome::Next(
            MachineState {
                stack: st.stack.push(Value::Constant(FConstant { value, cell: Some(cell), ty })),
                ..st2
            },
        )
    } else {
        SpecOutcome::Fail(st2, RuntimeError { status: StatusCode::StackOverflow })
    }
}

/// A binary operation: pop the right then the left operand (the
/// comparison pops in the opposite order), record one gate, allocate the
/// result wire, and push a result variable whose value is known exactly
/// when both operands were.
pub open spec fn spec_arith(st: MachineState, op: BinOp) -> SpecOutcome {
    if st.stack.len() == 0 {
        SpecOutcome::Fail(st, RuntimeError { status: StatusCode::StackUnderflow })
    } else if st.stack.len() == 1 {
        SpecOutcome::Fail(
            MachineState { stack: st.stack.drop_last(), ..st },
            RuntimeError { status: StatusCode::StackUnderflow },
        )
    } else {
        let top = st.stack.last();
        let second = st.stack[st.stack.len() - 2];
        let left = if op is Eq {
            top
        } else {
            second
        };
        let right = if op is Eq {
            second
        } else {
            top
        };
        let value = match spec_known_both(left, right, |x: int, y: int| spec_value_fn(op, x, y)) {
            Some(x) => Some(Fr::from_int(x)),
            None => None,
        };
        let ty = if op is Eq {
            MoveValueType::Bool
        } else {
            left.spec_ty()
        };
        let res = Value::Variable(
            FVariable { value, cell: Some(Cell { index: st.wires.len() as usize }), ty },
        );
        let st2 = MachineState { wires: st.wires.push(value), gates: st.gates + 1, ..st };
        if st.stack.len() - 2 < EVAL_STACK_SIZE {
            SpecOutcome::Next(
                MachineState { stack: st.stack.drop_last().drop_last().push(res), ..st2 },
            )
        } else {
            SpecOutcome::Fail(
                MachineState { stack: st.stack.drop_last().drop_last(), ..st2 },
                RuntimeError { status: StatusCode::StackOverflow },
            )
        }
    }
}

/// A conditional branch: pop the condition, then jump, fall through or
/// exit for materialization, by the decision on the condition alone.
pub open spec fn spec_branch(st: MachineState, offset: u16, expect_true: bool) -> SpecOutcome {
    if st.stack.len() == 0 {
        SpecOutcome::Fail(st, RuntimeError { status: StatusCode::StackUnderflow })
    } else {
        let st2 = MachineState { stack: st.stack.drop_last(), ..st };
        match spec_branch_decision(st.stack.last(), expect_true) {
            BranchDecision::Jump => SpecOutcome::Jumped(MachineState { pc: offset, ..st2 }),
            BranchDecision::FallThrough => SpecOutcome::Next(st2),
            BranchDecision::Materialize => SpecOutcome::Exit(
                st2,
                ExitStatus::ConditionalBranch(st.pc),
            ),
        }
    }
}

/// The machine after the one instruction at the program counter: the
/// functional counterpart of `step_post`.
pub open spec fn spec_step(code: Seq<Bytecode>, st0: MachineState) -> SpecOutcome {
    let st = MachineState { step: (st0.step + 1) as u64, ..st0 };
    match code[st0.pc as int] {
        Bytecode::LdU8(v) => spec_load(st, v as int, MoveValueType::U8),
        Bytecode::LdU64(v) => spec_load(st, v as int % (FIELD_MODULUS as int), MoveValueType::U64),
        Bytecode::LdU128(v) => spec_load(
            st,
            v as int % (FIELD_MODULUS as int),
            MoveValueType::U128,
        ),
        Bytecode::LdTrue => spec_load(st, 1, MoveValueType::Bool),
        Bytecode::LdFalse => spec_load(st, 0, MoveValueType::Bool),
        Bytecode::Pop => if st.stack.len() > 0 {
            SpecOutcome::Next(MachineState { stack: st.stack.drop_last(), ..st })
        } else {
            SpecOutcome::Fail(st, RuntimeError { status: StatusCode::StackUnderflow })
        },
        Bytecode::Add => spec_arith(st, BinOp::Add),
        Bytecode::Sub => spec_arith(st, BinOp::Sub),
        Bytecode::Mul => spec_arith(st, BinOp::Mul),
        Bytecode::Eq => spec_arith(st, BinOp::Eq),
        Bytecode::Ret => SpecOutcome::Exit(st, ExitStatus::Return),
        Bytecode::Call(idx) => SpecOutcome::Exit(st, ExitStatus::Call(idx)),
        Bytecode::CopyLoc(v) => match spec_copy_local(st.locals, v as int) {
            Ok(val) => if st.stack.len() < EVAL_STACK_SIZE {
                SpecOutcome::Next(MachineState { stack: st.stack.push(val), ..st })
            } else {
                SpecOutcome::Fail(st, RuntimeError { status: StatusCode::StackOverflow })
            },
            Err(e) => SpecOutcome::Fail(st, e),
        },
        Bytecode::StLoc(v) => if st.stack.len() == 0 {
            SpecOutcome::Fail(st, RuntimeError { status: StatusCode::StackUnderflow })
        } else {
            let st2 = MachineState { stack: st.stack.drop_last(), ..st };
            match spec_store_local(st.locals, v as int, st.stack.last()) {
                Ok(l2) => SpecOutcome::Next(MachineState { locals: l2, ..st2 }),
                Err(e) => SpecOutcome::Fail(st2, e),
            }
        },
        Bytecode::MoveLoc(v) => match spec_move_local(st.locals, v as int) {
            Ok(p) => {
                let st2 = MachineState { locals: p.1, ..st };
                if st.stack.len() < EVAL_STACK_SIZE {
                    SpecOutcome::Next(MachineState { stack: st.stack.push(p.0), ..st2 })
                } else {
                    SpecOutcome::Fail(st2, RuntimeError { status: StatusCode::StackOverflow })
                }
            },
            Err(e) => SpecOutcome::Fail(st, e),
        },
        Bytecode::BrTrue(offset) => spec_branch(st, offset, true),
        Bytecode::BrFalse(offset) => spec_branch(st, offset, false),
        Bytecode::Branch(offset) => SpecOutcome::Jumped(MachineState { pc: offset, ..st }),
        Bytecode::Abort => if st.stack.len() == 0 {
            SpecOutcome::Fail(st, RuntimeError { status: StatusCode::StackUnderflow })
        } else {
            let st2 = MachineState { stack: st.stack.drop_last(), ..st };
            match st.stack.last().spec_value() {
                Some(f) => SpecOutcome::Fail(
                    st2,
                    RuntimeError { status: StatusCode::MoveAbort(f.as_int() as u128) },
                ),
                None => SpecOutcome::Fail(
                    st2,
                    RuntimeError { status: StatusCode::ValueConversionError },
                ),
            }
        },
    }
}

/// The executed step left the machine exactly as `spec_step` says and
/// reported the matching result.
pub open spec fn spec_step_agrees(
    code: Seq<Bytecode>,
    pre: MachineState,
    post: MachineState,
    r: VmResult<StepResult>,
) -> bool {
    match spec_step(code, pre) {
        SpecOutcome::Next(st2) => r == Ok::<StepResult, RuntimeError>(StepResult::Next) && post
            == st2,
        SpecOutcome::Jumped(st2) => r == Ok::<StepResult, RuntimeError>(StepResult::Jumped) && post
            == st2,
        SpecOutcome::Exit(st2, status) => r == Ok::<StepResult, RuntimeError>(
            StepResult::Exit(status),
        ) && post == st2,
        SpecOutcome::Fail(st2, e) => r == Err::<StepResult, RuntimeError>(e) && post == st2,
    }
}

/// A whole block run: iterate `spec_step` from `st`, advancing past each
/// fall-through instruction and exiting at the end boundary, until an
/// exit event, a failure, or the fuel (the headroom of the step counter)
/// is exhausted.
pub open spec fn spec_block_run(
    code: Seq<Bytecode>,
    end: Option<u16>,
    st: MachineState,
    fuel: nat,
) -> (MachineState, VmResult<ExitStatus>)
    decreases fuel,
{
    if fuel == 0 {
        (st, Err(RuntimeError { status: StatusCode::ShouldNotReachHere }))
    } else if st.pc >= code.len() {
        (st, Err(RuntimeError { status: StatusCode::ShouldNotReachHere }))
    } else {
        match spec_step(code, st) {
            SpecOutcome::Next(st2) => {
                if end == Some(st2.pc) {
                    (st2, Ok(ExitStatus::BranchEnd(st2.pc)))
                } else {
                    spec_block_run(
                        code,
                        end,
                        MachineState { pc: (st2.pc + 1) as u16, ..st2 },
                        (fuel - 1) as nat,
                    )
                }
            },
            SpecOutcome::Jumped(st2) => spec_block_run(code, end, st2, (fuel - 1) as nat),
            SpecOutcome::Exit(st2, status) => (st2, Ok(status)),
            SpecOutcome::Fail(st2, e) => (st2, Err(e)),
        }
    }
}

/// Every field element is pinned by its canonical representative.
proof fn lemma_fr_pinning()
    ensures
        forall|f: Fr, x: int|
            #![trigger f.as_int(), Fr::from_int(x)]
            (0 <= x < FIELD_MODULUS && f.as_int() == x) ==> f == Fr::from_int(x),
{
    assert forall|f: Fr, x: int|
        #![trigger f.as_int(), Fr::from_int(x)]
        (0 <= x < FIELD_MODULUS && f.as_int() == x) implies f == Fr::from_int(x) by {
        Fr::lemma_from_int(f, x);
    }
}

/// A linear run of instructions: a function body or one arm of a
/// conditional construct.
#[derive(Debug)]
pub struct Block {
    /// The next instruction to execute.
    pub pc: u16,
    /// Where this block's run began.
    pub start: u16,
    /// The inclusive end boundary of a branch arm; absent for a whole
    /// function body.
    pub end: Option<u16>,
    /// The owning function's full instruction sequence.
    pub code: Vec<Bytecode>,
}

/// What a block's run guarantees about the exit event it reports.
pub open spec fn exit_ok(b: Block, st: ExitStatus) -> bool {
    match st {
        ExitStatus::Return => b.pc < b.code@.len() && b.code@[b.pc as int] == Bytecode::Ret,
        ExitStatus::Call(idx) => b.pc < b.code@.len() && b.code@[b.pc as int] == Bytecode::Call(
            idx,
        ),
        ExitStatus::ConditionalBranch(pc) => pc == b.pc && pc < b.code@.len() && (b.code@[pc as int]
            matches Bytecode::BrTrue(_) || b.code@[pc as int] matches Bytecode::BrFalse(_)),
        ExitStatus::BranchEnd(pc) => b.end == Some(pc) && b.pc == pc && pc < b.code@.len(),
    }
}

impl Block {
    /// The block's code fits `u16` addressing.
    pub open spec fn wf(self) -> bool {
        self.code@.len() <= MAX_CODE_LEN
    }

    pub fn new(pc: u16, start: u16, end: Option<u16>, code: Vec<Bytecode>) -> (r: Self)
        requires
            code@.len() <= MAX_CODE_LEN,
        ensures
            r == (Block { pc, start, end, code }),
            r.wf(),
    {
        Block { pc, start, end, code }
    }

    pub fn pc(&self) -> (r: u16)
        ensures
            r == self.pc,
    {
        self.pc
    }

    /// Advance to the next instruction.
    pub fn add_pc(&mut self)
        requires
            old(self).pc < 0xFFFF,
        ensures
            *final(self) == (Block { pc: (old(self).pc + 1) as u16, ..*old(self) }),
    {
        self.pc = self.pc + 1;
    }

    /// Jump to an instruction.
    pub fn set_pc(&mut self, next: u16)
        ensures
            *final(self) == (Block { pc: next, ..*old(self) }),
    {
        self.pc = next;
    }

    pub fn end(&self) -> (r: Option<u16>)
        ensures
            r == self.end,
    {
        self.end
    }

    /// Run instructions from `pc` until the block returns, calls out, hits
    /// its end boundary, needs to materialize a branch, or fails.
    ///
    /// The whole run, its effects on the stack, locals and constraint
    /// system included, is the mathematical run `spec_block_run`; the exit
    /// event reported is additionally pinned to the code by `exit_ok`.
    pub fn execute(&mut self, locals: &mut Locals, interp: &mut Interpreter, chip: &mut EvaluationChip) -> (r:
        VmResult<ExitStatus>)
        requires
            old(self).wf(),
            all_live(old(interp).stack@),
        ensures
            final(self).wf(),
            final(self).code@ == old(self).code@,
            final(self).start == old(self).start,
            final(self).end == old(self).end,
            all_live(final(interp).stack@),
            final(locals)@.len() == old(locals)@.len(),
            old(chip).constraints@.is_prefix_of(final(chip).constraints@),
            final(interp).step >= old(interp).step,
            r matches Ok(st) ==> exit_ok(*final(self), st) && final(interp).step > old(
                interp,
            ).step,
            r matches Err(e) ==> !(e.status is ProgramBlockError) && !(e.status
                is SynthesisError),
            ({
                let run = spec_block_run(
                    old(self).code@,
                    old(self).end,
                    machine_of(*old(self), *old(interp), *old(locals), *old(chip)),
                    (u64::MAX - old(interp).step) as nat,
                );
                machine_of(*final(self), *final(interp), *final(locals), *final(chip)) == run.0
                    && r == run.1
            }),
    {
        loop
            invariant
                self.wf(),
                self.code@ == old(self).code@,
                self.start == old(self).start,
                self.end == old(self).end,
                all_live(interp.stack@),
                locals@.len() == old(locals)@.len(),
                old(chip).constraints@.is_prefix_of(chip.constraints@),
                interp.step >= old(interp).step,
                spec_block_run(
                    old(self).code@,
                    old(self).end,
                    machine_of(*self, *interp, *locals, *chip),
                    (u64::MAX - interp.step) as nat,
                ) == spec_block_run(
                    old(self).code@,
                    old(self).end,
                    machine_of(*old(self), *old(interp), *old(locals), *old(chip)),
                    (u64::MAX - old(interp).step) as nat,
                ),
            decreases u64::MAX - interp.step,
        {
            if interp.step >= u64::MAX {
                // The step counter is exhausted; treat a run this long as
                // an invariant violation rather than wrapping the counter.
                return Err(RuntimeError::new(StatusCode::ShouldNotReachHere));
            }
            if !((self.pc as usize) < self.code.len()) {
                // Control ran off the code without an exit event: the
                // loader let through a function that does not end in an
                // explicit return or abort.
                return Err(RuntimeError::new(StatusCode::ShouldNotReachHere));
            }
            match self.step(locals, interp, chip) {
                Ok(StepResult::Exit(st)) => {
                    return Ok(st);
                },
                Ok(StepResult::Jumped) => {},
                Ok(StepResult::Next) => {
                    let at_end = match self.end {
                        Some(e) => e == self.pc,
                        None => false,
                    };
                    if at_end {
                        return Ok(ExitStatus::BranchEnd(self.pc));
                    }
                    self.pc = self.pc + 1;
                },
                Err(e) => {
                    return Err(e);
                },
            }
            proof {
                crate::circuit::lemma_constraints_prefix_trans(
                    old(chip).constraints@,
                    chip.constraints@,
                );
            }
        }
    }

    /// Execute the single instruction at the program counter; its exact
    /// effect on the block, stack, locals and constraint system is
    /// `step_post`, and the machine transition it performs is exactly
    /// `spec_step`.  A fall-through leaves the program counter untouched:
    /// the caller checks the end boundary and advances it.
    pub fn step(&mut self, locals: &mut Locals, interp: &mut Interpreter, chip: &mut EvaluationChip) -> (r:
        VmResult<StepResult>)
        requires
            old(self).pc < old(self).code@.len(),
            all_live(old(interp).stack@),
            old(interp).step < u64::MAX,
        ensures
            final(self).code@ == old(self).code@,
            final(self).start == old(self).start,
            final(self).end == old(self).end,
            all_live(final(interp).stack@),
            final(interp).conditions == old(interp).conditions,
            final(interp).step == old(interp).step + 1,
            final(locals)@.len() == old(locals)@.len(),
            old(chip).constraints@.is_prefix_of(final(chip).constraints@),
            r matches Err(e) ==> !(e.status is ProgramBlockError) && !(e.status
                is SynthesisError),
            step_post(
                *old(self),
                *final(self),
                old(interp).stack@,
                final(interp).stack@,
                old(locals)@,
                final(locals)@,
                *old(chip),
                *final(chip),
                r,
            ),
            spec_step_agrees(
                old(self).code@,
                machine_of(*old(self), *old(interp), *old(locals), *old(chip)),
                machine_of(*final(self), *final(interp), *final(locals), *final(chip)),
                r,
            ),
    {
        let instr = self.code[self.pc as usize];
        interp.bump_step();
        match instr {
            Bytecode::LdU8(v) => {
                let value = chip.load_constant(Fr::from_u64(v as u64), MoveValueType::U8);
                proof {
                    lemma_fr_pinning();
                }
                interp.stack.push(value)?;
                proof {
                    assert(interp.stack@.drop_last() =~= old(interp).stack@);
                }
                Ok(StepResult::Next)
            },
            Bytecode::LdU64(v) => {
                let value = chip.load_constant(Fr::from_u64(v), MoveValueType::U64);
                proof {
                    lemma_fr_pinning();
                }
                interp.stack.push(value)?;
                proof {
                    assert(interp.stack@.drop_last() =~= old(interp).stack@);
                }
                Ok(StepResult::Next)
            },
            Bytecode::LdU128(v) => {
                let value = chip.load_constant(Fr::from_u128(v), MoveValueType::U128);
                proof {
                    lemma_fr_pinning();
                }
                interp.stack.push(value)?;
                proof {
                    assert(interp.stack@.drop_last() =~= old(interp).stack@);
                }
                Ok(StepResult::Next)
            },
            Bytecode::LdTrue => {
                let value = chip.load_constant(Fr::one(), MoveValueType::Bool);
                proof {
                    lemma_fr_pinning();
                }
                interp.stack.push(value)?;
                proof {
                    assert(interp.stack@.drop_last() =~= old(interp).stack@);
                }
                Ok(StepResult::Next)
            },
            Bytecode::LdFalse => {
                let value = chip.load_constant(Fr::zero(), MoveValueType::Bool);
                proof {
                    lemma_fr_pinning();
                }
                interp.stack.push(value)?;
                proof {
                    assert(interp.stack@.drop_last() =~= old(interp).stack@);
                }
                Ok(StepResult::Next)
            },
            Bytecode::Pop => {
                let _ = interp.stack.pop()?;
                Ok(StepResult::Next)
            },
            Bytecode::Add => {
                let b = interp.stack.pop()?;
                let a = interp.stack.pop()?;
                let c = chip.add(&a, &b, interp.conditions.top())?;
                proof {
                    lemma_fr_pinning();
                    assert(old(interp).stack@.drop_last().last() == old(interp).stack@[old(
                        interp,
                    ).stack@.len() - 2]);
                }
                interp.stack.push(c)?;
                proof {
                    assert(final(interp).stack@.drop_last() =~= old(
                        interp,
                    ).stack@.drop_last().drop_last());
                }
                Ok(StepResult::Next)
            },
            Bytecode::Sub => {
                let b = interp.stack.pop()?;
                let a = interp.stack.pop()?;
                let c = chip.sub(&a, &b, interp.conditions.top())?;
                proof {
                    lemma_fr_pinning();
                    assert(old(interp).stack@.drop_last().last() == old(interp).stack@[old(
                        interp,
                    ).stack@.len() - 2]);
                }
                interp.stack.push(c)?;
                proof {
                    assert(final(interp).stack@.drop_last() =~= old(
                        interp,
                    ).stack@.drop_last().drop_last());
                }
                Ok(StepResult::Next)
            },
            Bytecode::Mul => {
                let b = interp.stack.pop()?;
                let a = interp.stack.pop()?;
                let c = chip.mul(&a, &b, interp.conditions.top())?;
                proof {
                    lemma_fr_pinning();
                    assert(old(interp).stack@.drop_last().last() == old(interp).stack@[old(
                        interp,
                    ).stack@.len() - 2]);
                }
                interp.stack.push(c)?;
                proof {
                    assert(final(interp).stack@.drop_last() =~= old(
                        interp,
                    ).stack@.drop_last().drop_last());
                }
                Ok(StepResult::Next)
            },
            Bytecode::Eq => {
                let a = interp.stack.pop()?;
                let b = interp.stack.pop()?;
                let c = chip.eq(&a, &b, interp.conditions.top())?;
                proof {
                    lemma_fr_pinning();
                    assert(old(interp).stack@.drop_last().last() == old(interp).stack@[old(
                        interp,
                    ).stack@.len() - 2]);
                }
                interp.stack.push(c)?;
                proof {
                    assert(final(interp).stack@.drop_last() =~= old(
                        interp,
                    ).stack@.drop_last().drop_last());
                }
                Ok(StepResult::Next)
            },
            Bytecode::Ret => Ok(StepResult::Exit(ExitStatus::Return)),
            Bytecode::Call(index) => Ok(StepResult::Exit(ExitStatus::Call(index))),
            Bytecode::CopyLoc(v) => {
                let value = locals.copy(v as usize)?;
                interp.stack.push(value)?;
                Ok(StepResult::Next)
            },
            Bytecode::StLoc(v) => {
                let value = interp.stack.pop()?;
                locals.store(v as usize, value)?;
                Ok(StepResult::Next)
            },
            Bytecode::MoveLoc(v) => {
                let value = locals.move_(v as usize)?;
                interp.stack.push(value)?;
                Ok(StepResult::Next)
            },
            Bytecode::BrTrue(offset) => {
                let cond = interp.stack.pop()?;
                match branch_decision(&cond, true) {
                    BranchDecision::Jump => {
                        self.pc = offset;
                        Ok(StepResult::Jumped)
                    },
                    BranchDecision::FallThrough => Ok(StepResult::Next),
                    BranchDecision::Materialize => Ok(
                        StepResult::Exit(ExitStatus::ConditionalBranch(self.pc)),
                    ),
                }
            },
            Bytecode::BrFalse(offset) => {
                let cond = interp.stack.pop()?;
                match branch_decision(&cond, false) {
                    BranchDecision::Jump => {
                        self.pc = offset;
                        Ok(StepResult::Jumped)
                    },
                    BranchDecision::FallThrough => Ok(StepResult::Next),
                    BranchDecision::Materialize => Ok(
                        StepResult::Exit(ExitStatus::ConditionalBranch(self.pc)),
                    ),
                }
            },
            Bytecode::Branch(offset) => {
                self.pc = offset;
                Ok(StepResult::Jumped)
            },
            Bytecode::Abort => {
                let value = interp.stack.pop()?;
                Err(abort_error(&value))
            },
        }
    }
}

/// One arm of a conditional construct and whether it is the arm currently
/// executing.
#[derive(Debug)]
pub struct Branch {
    pub block: Block,
    pub is_running: bool,
}

/// Up to two branch arms; exists only while a branch whose condition is
/// not concretely known is being processed.
#[derive(Debug)]
pub struct ConditionalBlock {
    pub true_branch: Option<Branch>,
    pub false_branch: Option<Branch>,
}

impl ConditionalBlock {
    /// At least one arm exists, at most one is running, and each arm's
    /// block is well formed.
    pub open spec fn wf(self) -> bool {
        &&& (self.true_branch is Some || self.false_branch is Some)
        &&& !(self.true_running() && self.false_running())
        &&& (self.true_branch matches Some(t) ==> t.block.wf())
        &&& (self.false_branch matches Some(f) ==> f.block.wf())
    }

    pub open spec fn true_running(self) -> bool {
        self.true_branch matches Some(t) && t.is_running
    }

    pub open spec fn false_running(self) -> bool {
        self.false_branch matches Some(f) && f.is_running
    }

    pub open spec fn has_running(self) -> bool {
        self.true_running() || self.false_running()
    }

    /// The block of the arm currently executing; the false arm wins if
    /// both were flagged, mirroring the order the flags are examined.
    pub open spec fn running_block(self) -> Block {
        if self.false_running() {
            self.false_branch.unwrap().block
        } else {
            self.true_branch.unwrap().block
        }
    }

    /// Wrap the present arms; the true arm, if any, starts as the running
    /// one, else the false arm is expected to be started by the frame.
    pub fn new(true_branch: Option<Block>, false_branch: Option<Block>) -> (r: Self)
        ensures
            (match true_branch {
                Some(b) => r.true_branch matches Some(t) && t.block == b && t.is_running,
                None => r.true_branch is None,
            }),
            (match false_branch {
                Some(b) => r.false_branch matches Some(f) && f.block == b && !f.is_running,
                None => r.false_branch is None,
            }),
    {
        let true_branch = match true_branch {
            Some(true_bl) => Some(Branch { block: true_bl, is_running: true }),
            None => None,
        };
        let false_branch = match false_branch {
            Some(false_bl) => Some(Branch { block: false_bl, is_running: false }),
            None => None,
        };
        ConditionalBlock { true_branch, false_branch }
    }

    /// The arm currently executing, if any.
    pub fn current_running(&self) -> (r: Option<&Block>)
        ensures
            self.has_running() ==> (r matches Some(b) && *b == self.running_block()),
            !self.has_running() ==> r is None,
    {
        let mut current: Option<&Block> = None;
        if let Some(true_br) = &self.true_branch {
            if true_br.is_running {
                current = Some(&true_br.block);
            }
        }
        if let Some(false_br) = &self.false_branch {
            if false_br.is_running {
                current = Some(&false_br.block);
            }
        }
        current
    }

    /// Run the arm currently executing; with no running arm the construct
    /// is in an impossible state and the run fails fatally.
    pub fn execute(&mut self, locals: &mut Locals, interp: &mut Interpreter, chip: &mut EvaluationChip) -> (r:
        VmResult<ExitStatus>)
        requires
            old(self).wf(),
            all_live(old(interp).stack@),
        ensures
            final(self).wf(),
            all_live(final(interp).stack@),
            final(locals)@.len() == old(locals)@.len(),
            old(chip).constraints@.is_prefix_of(final(chip).constraints@),
            final(self).true_running() == old(self).true_running(),
            final(self).false_running() == old(self).false_running(),
            final(self).true_branch is Some <==> old(self).true_branch is Some,
            final(self).false_branch is Some <==> old(self).false_branch is Some,
            !old(self).has_running() ==> (r matches Err(e) && e.status
                == StatusCode::ShouldNotReachHere) && *final(self) == *old(self),
            old(self).has_running() ==> final(self).running_block().code@
                == old(self).running_block().code@ && final(self).running_block().start == old(
                self,
            ).running_block().start && final(self).running_block().end == old(
                self,
            ).running_block().end,
            final(interp).step >= old(interp).step,
            r matches Ok(st) ==> old(self).has_running() && exit_ok(
                final(self).running_block(),
                st,
            ) && final(interp).step > old(interp).step,
            r matches Err(e) ==> !(e.status is ProgramBlockError) && !(e.status
                is SynthesisError),
            old(self).false_running() ==> final(self).true_branch == old(self).true_branch,
            old(self).true_running() && !old(self).false_running() ==> final(self).false_branch
                == old(self).false_branch,
            old(self).has_running() ==> ({
                let run = spec_block_run(
                    old(self).running_block().code@,
                    old(self).running_block().end,
                    machine_of(old(self).running_block(), *old(interp), *old(locals), *old(chip)),
                    (u64::MAX - old(interp).step) as nat,
                );
                machine_of(final(self).running_block(), *final(interp), *final(locals), *final(chip))
                    == run.0 && r == run.1
            }),
    {
        let run_false = match &self.false_branch {
            Some(f) => f.is_running,
            None => false,
        };
        if run_false {
            match &mut self.false_branch {
                Some(f) => f.block.execute(locals, interp, chip),
                None => unreached(),
            }
        } else {
            let run_true = match &self.true_branch {
                Some(t) => t.is_running,
                None => false,
            };
            if run_true {
                match &mut self.true_branch {
                    Some(t) => t.block.execute(locals, interp, chip),
                    None => unreached(),
                }
            } else {
                Err(RuntimeError::new(StatusCode::ShouldNotReachHere))
            }
        }
    }
}

/// The unit a frame executes: a plain block or a conditional construct.
#[derive(Debug)]
pub enum ProgramBlock {
    Block(Block),
    ConditionalBlock(ConditionalBlock),
}

/// The program block with the program counter of its executing block set
/// to `next`.
pub open spec fn pb_set_pc(pb: ProgramBlock, next: u16) -> ProgramBlock {
    match pb {
        ProgramBlock::Block(b) => ProgramBlock::Block(Block { pc: next, ..b }),
        ProgramBlock::ConditionalBlock(cb) => ProgramBlock::ConditionalBlock(
            if cb.false_running() {
                ConditionalBlock {
                    false_branch: Some(
                        Branch { block: Block { pc: next, ..cb.running_block() }, is_running: true },
                    ),
                    ..cb
                }
            } else {
                ConditionalBlock {
                    true_branch: Some(
                        Branch { block: Block { pc: next, ..cb.running_block() }, is_running: true },
                    ),
                    ..cb
                }
            },
        ),
    }
}

impl ProgramBlock {
    pub open spec fn wf(self) -> bool {
        match self {
            ProgramBlock::Block(b) => b.wf(),
            ProgramBlock::ConditionalBlock(cb) => cb.wf(),
        }
    }

    /// Whether an executing block exists: always for a plain block, and
    /// exactly when an arm is running for a conditional construct.
    pub open spec fn has_active(self) -> bool {
        match self {
            ProgramBlock::Block(_) => true,
            ProgramBlock::ConditionalBlock(cb) => cb.has_running(),
        }
    }

    /// The executing block.
    pub open spec fn active_block(self) -> Block {
        match self {
            ProgramBlock::Block(b) => b,
            ProgramBlock::ConditionalBlock(cb) => cb.running_block(),
        }
    }

    pub fn new_block(pc: u16, start: u16, end: Option<u16>, code: Vec<Bytecode>) -> (r: Self)
        requires
            code@.len() <= MAX_CODE_LEN,
        ensures
            r == ProgramBlock::Block(Block { pc, start, end, code }),
    {
        ProgramBlock::Block(Block::new(pc, start, end, code))
    }

    pub fn new_conditional_block(true_branch: Option<Block>, false_branch: Option<Block>) -> (r:
        Self)
        ensures
            r matches ProgramBlock::ConditionalBlock(cb),
            (match true_branch {
                Some(b) => r->ConditionalBlock_0.true_branch matches Some(t) && t.block == b
                    && t.is_running,
                None => r->ConditionalBlock_0.true_branch is None,
            }),
            (match false_branch {
                Some(b) => r->ConditionalBlock_0.false_branch matches Some(f) && f.block == b
                    && !f.is_running,
                None => r->ConditionalBlock_0.false_branch is None,
            }),
    {
        ProgramBlock::ConditionalBlock(ConditionalBlock::new(true_branch, false_branch))
    }

    /// The executing block's program counter.
    pub fn pc(&self) -> (r: u16)
        requires
            self.has_active(),
        ensures
            r == self.active_block().pc,
    {
        match self {
            ProgramBlock::Block(block) => block.pc,
            ProgramBlock::ConditionalBlock(conditional) => {
                match conditional.current_running() {
                    Some(b) => b.pc,
                    None => unreached(),
                }
            },
        }
    }

    /// Advance the executing block to its next instruction.
    pub fn add_pc(&mut self)
        requires
            old(self).has_active(),
            old(self).active_block().pc < 0xFFFF,
        ensures
            *final(self) == pb_set_pc(*old(self), (old(self).active_block().pc + 1) as u16),
    {
        let next = self.pc() + 1;
        self.set_pc(next);
    }

    /// Jump the executing block to an instruction.
    pub fn set_pc(&mut self, next: u16)
        requires
            old(self).has_active(),
        ensures
            *final(self) == pb_set_pc(*old(self), next),
    {
        match self {
            ProgramBlock::Block(block) => {
                block.pc = next;
            },
            ProgramBlock::ConditionalBlock(conditional) => {
                let run_false = match &conditional.false_branch {
                    Some(f) => f.is_running,
                    None => false,
                };
                if run_false {
                    match &mut conditional.false_branch {
                        Some(f) => {
                            f.block.pc = next;
                        },
                        None => {},
                    }
                } else {
                    match &mut conditional.true_branch {
                        Some(t) => {
                            t.block.pc = next;
                        },
                        None => unreached(),
                    }
                }
            },
        }
        proof {
            assert(*final(self) =~= pb_set_pc(*old(self), next));
        }
    }

    /// Run the executing block.
    pub fn execute(&mut self, locals: &mut Locals, interp: &mut Interpreter, chip: &mut EvaluationChip) -> (r:
        VmResult<ExitStatus>)
        requires
            old(self).wf(),
            old(self).has_active(),
            all_live(old(interp).stack@),
        ensures
            final(self).wf(),
            final(self).has_active(),
            all_live(final(interp).stack@),
            final(locals)@.len() == old(locals)@.len(),
            old(chip).constraints@.is_prefix_of(final(chip).constraints@),
            (*final(self)) is Block <==> (*old(self)) is Block,
            final(self).active_block().code@ == old(self).active_block().code@,
            final(self).active_block().start == old(self).active_block().start,
            final(self).active_block().end == old(self).active_block().end,
            final(interp).step >= old(interp).step,
            r matches Ok(st) ==> exit_ok(final(self).active_block(), st) && final(interp).step
                > old(interp).step,
            r matches Err(e) ==> !(e.status is ProgramBlockError) && !(e.status
                is SynthesisError),
            (*old(self)) matches ProgramBlock::ConditionalBlock(cb) ==> ((cb.false_running()
                ==> final(self)->ConditionalBlock_0.true_branch == cb.true_branch) && (
            cb.true_running() && !cb.false_running()
                ==> final(self)->ConditionalBlock_0.false_branch == cb.false_branch) && (
            final(self)->ConditionalBlock_0.true_branch is Some <==> cb.true_branch is Some) && (
            final(self)->ConditionalBlock_0.false_branch is Some <==> cb.false_branch is Some)
                && final(self)->ConditionalBlock_0.true_running() == cb.true_running()
                && final(self)->ConditionalBlock_0.false_running() == cb.false_running()),
            ({
                let run = spec_block_run(
                    old(self).active_block().code@,
                    old(self).active_block().end,
                    machine_of(old(self).active_block(), *old(interp), *old(locals), *old(chip)),
                    (u64::MAX - old(interp).step) as nat,
                );
                machine_of(final(self).active_block(), *final(interp), *final(locals), *final(chip))
                    == run.0 && r == run.1
            }),
    {
        match self {
            ProgramBlock::Block(block) => block.execute(locals, interp, chip),
            ProgramBlock::ConditionalBlock(conditional) => conditional.execute(
                locals,
                interp,
                chip,
            ),
        }
    }
}

/// The arm boundaries recovered by re-scanning the code around a
/// conditional branch.
pub struct CondShape {
    /// First instruction of the true arm, the branch's jump target.
    pub true_start: u16,
    /// Last instruction of the true arm, inclusive.
    pub true_end: u16,
    /// Start and inclusive end of the false arm, when one exists.
    pub false_arm: Option<(u16, u16)>,
}

/// Recover the arm boundaries of the conditional construct whose branch
/// instruction sits at `pc`, per the required if/else byte pattern: the
/// instruction at `pc` is a `BrTrue` with the true arm's start as target
/// (a `BrFalse` at the branch position does not fit the pattern); the
/// next instruction is the unconditional jump that skips the true arm;
/// and when the instruction just before that jump's target is itself an
/// unconditional jump, it ends the true arm and a false arm follows up
/// to that jump's target.  Any deviation is a structural error.
pub open spec fn scan_conditional(code: Seq<Bytecode>, pc: int) -> Result<CondShape, RuntimeError> {
    if !(0 <= pc && pc + 1 < code.len()) {
        Err(RuntimeError { status: StatusCode::ProgramBlockError })
    } else {
        match code[pc] {
            Bytecode::BrTrue(true_start) => match code[pc + 1] {
                Bytecode::Branch(false_target) => {
                    if !(1 <= false_target && false_target - 1 < code.len()) {
                        Err(RuntimeError { status: StatusCode::ProgramBlockError })
                    } else {
                        match code[false_target - 1] {
                            Bytecode::Branch(merge_target) => {
                                if false_target >= 2 && merge_target >= 1 {
                                    Ok(
                                        CondShape {
                                            true_start,
                                            true_end: (false_target - 2) as u16,
                                            false_arm: Some(
                                                (false_target, (merge_target - 1) as u16),
                                            ),
                                        },
                                    )
                                } else {
                                    Err(RuntimeError { status: StatusCode::ProgramBlockError })
                                }
                            },
                            _ => Ok(
                                CondShape {
                                    true_start,
                                    true_end: (false_target - 1) as u16,
                                    false_arm: None,
                                },
                            ),
                        }
                    }
                },
                _ => Err(RuntimeError { status: StatusCode::ProgramBlockError }),
            },
            _ => Err(RuntimeError { status: StatusCode::ProgramBlockError }),
        }
    }
}

/// The conditional construct a frame builds for the given arm boundaries:
/// a running true arm and, when present, a stopped false arm, each holding
/// the function's code.
pub open spec fn pb_matches_shape(pb: ProgramBlock, shape: CondShape, code: Seq<Bytecode>) -> bool {
    &&& pb matches ProgramBlock::ConditionalBlock(cb)
    &&& cb.true_branch matches Some(tb)
    &&& tb.is_running
    &&& tb.block.pc == shape.true_start
    &&& tb.block.start == shape.true_start
    &&& tb.block.end == Some(shape.true_end)
    &&& tb.block.code@ == code
    &&& (match shape.false_arm {
        Some(fa) => {
            &&& cb.false_branch matches Some(fb)
            &&& !fb.is_running
            &&& fb.block.pc == fa.0
            &&& fb.block.start == fa.0
            &&& fb.block.end == Some(fa.1)
            &&& fb.block.code@ == code
        },
        None => cb.false_branch is None,
    })
}

/// The executing block reached a `BranchEnd` and the construct switches
/// arms: the true arm was running and a false arm exists.
pub open spec fn is_switch_case(pb: ProgramBlock) -> bool {
    &&& pb matches ProgramBlock::ConditionalBlock(cb)
    &&& cb.true_branch is Some
    &&& cb.false_branch is Some
    &&& cb.true_running()
}

/// The executing block reached a `BranchEnd` and the construct is done:
/// the false arm of a two-armed construct was running, or only one arm
/// exists and it just finished.
pub open spec fn is_merge_case(pb: ProgramBlock) -> bool {
    match pb {
        ProgramBlock::ConditionalBlock(cb) => match (cb.true_branch, cb.false_branch) {
            (Some(t), Some(f)) => !t.is_running && f.is_running,
            (Some(_), None) => true,
            (None, Some(_)) => true,
            (None, None) => false,
        },
        _ => false,
    }
}

/// The construct after switching arms: the true arm stops, the false arm
/// starts.
pub open spec fn cb_switched(cb: ConditionalBlock) -> ConditionalBlock {
    ConditionalBlock {
        true_branch: match cb.true_branch {
            Some(t) => Some(Branch { block: t.block, is_running: false }),
            None => None,
        },
        false_branch: match cb.false_branch {
            Some(f) => Some(Branch { block: f.block, is_running: true }),
            None => None,
        },
    }
}

/// A freshly materialized construct starts with an arm live: the true arm
/// when both exist (the switch case), or its only arm ready to merge.
pub proof fn lemma_materialized_construct_is_live(
    pb: ProgramBlock,
    shape: CondShape,
    code: Seq<Bytecode>,
)
    requires
        pb_matches_shape(pb, shape, code),
    ensures
        shape.false_arm is Some ==> is_switch_case(pb),
        shape.false_arm is None ==> is_merge_case(pb),
{
}

/// Switching arms puts a two-armed construct into the merge-ready state:
/// after the true arm's end the false arm runs, so each arm is executed
/// exactly once before the construct is torn down.
pub proof fn lemma_switch_enables_merge(pb: ProgramBlock)
    requires
        is_switch_case(pb),
    ensures
        is_merge_case(
            ProgramBlock::ConditionalBlock(cb_switched(pb->ConditionalBlock_0)),
        ),
{
}

/// The model of a block: its fields with the code as a sequence, so that
/// frame-level runs can be stated as mathematics.
#[verifier::ext_equal]
pub struct BlockModel {
    pub pc: u16,
    pub start: u16,
    pub end: Option<u16>,
    pub code: Seq<Bytecode>,
}

/// The model of one conditional arm.
#[verifier::ext_equal]
pub struct ArmModel {
    pub block: BlockModel,
    pub is_running: bool,
}

/// The model of a conditional construct.
#[verifier::ext_equal]
pub struct CondModel {
    pub true_branch: Option<ArmModel>,
    pub false_branch: Option<ArmModel>,
}

/// The model of a program block.
#[verifier::ext_equal]
pub enum ProgramBlockModel {
    Block(BlockModel),
    Cond(CondModel),
}

pub open spec fn model_of_block(b: Block) -> BlockModel {
    BlockModel { pc: b.pc, start: b.start, end: b.end, code: b.code@ }
}

pub open spec fn model_of_arm(br: Branch) -> ArmModel {
    ArmModel { block: model_of_block(br.block), is_running: br.is_running }
}

pub open spec fn model_of_cb(cb: ConditionalBlock) -> CondModel {
    CondModel {
        true_branch: match cb.true_branch {
            Some(t) => Some(model_of_arm(t)),
            None => None,
        },
        false_branch: match cb.false_branch {
            Some(f) => Some(model_of_arm(f)),
            None => None,
        },
    }
}

pub open spec fn model_of_pb(pb: ProgramBlock) -> ProgramBlockModel {
    match pb {
        ProgramBlock::Block(b) => ProgramBlockModel::Block(model_of_block(b)),
        ProgramBlock::ConditionalBlock(cb) => ProgramBlockModel::Cond(model_of_cb(cb)),
    }
}

pub open spec fn models_of(blocks: Seq<ProgramBlock>) -> Seq<ProgramBlockModel> {
    blocks.map_values(|pb: ProgramBlock| model_of_pb(pb))
}

pub open spec fn cm_false_running(cm: CondModel) -> bool {
    cm.false_branch matches Some(f) && f.is_running
}

pub open spec fn cm_true_running(cm: CondModel) -> bool {
    cm.true_branch matches Some(t) && t.is_running
}

pub open spec fn cm_has_running(cm: CondModel) -> bool {
    cm_true_running(cm) || cm_false_running(cm)
}

pub open spec fn cm_running_block(cm: CondModel) -> BlockModel {
    if cm_false_running(cm) {
        cm.false_branch.unwrap().block
    } else {
        cm.true_branch.unwrap().block
    }
}

pub open spec fn pbm_has_active(m: ProgramBlockModel) -> bool {
    match m {
        ProgramBlockModel::Block(_) => true,
        ProgramBlockModel::Cond(cm) => cm_has_running(cm),
    }
}

pub open spec fn pbm_active(m: ProgramBlockModel) -> BlockModel {
    match m {
        ProgramBlockModel::Block(b) => b,
        ProgramBlockModel::Cond(cm) => cm_running_block(cm),
    }
}

/// The model with the executing block's program counter set to `next`.
pub open spec fn pbm_set_pc(m: ProgramBlockModel, next: u16) -> ProgramBlockModel {
    match m {
        ProgramBlockModel::Block(b) => ProgramBlockModel::Block(BlockModel { pc: next, ..b }),
        ProgramBlockModel::Cond(cm) => ProgramBlockModel::Cond(
            if cm_false_running(cm) {
                CondModel {
                    false_branch: Some(
                        ArmModel {
                            block: BlockModel { pc: next, ..cm_running_block(cm) },
                            is_running: true,
                        },
                    ),
                    ..cm
                }
            } else {
                CondModel {
                    true_branch: Some(
                        ArmModel {
                            block: BlockModel { pc: next, ..cm_running_block(cm) },
                            is_running: true,
                        },
                    ),
                    ..cm
                }
            },
        ),
    }
}

pub open spec fn pbm_is_switch(m: ProgramBlockModel) -> bool {
    &&& m matches ProgramBlockModel::Cond(cm)
    &&& cm.true_branch is Some
    &&& cm.false_branch is Some
    &&& cm_true_running(cm)
}

pub open spec fn pbm_is_merge(m: ProgramBlockModel) -> bool {
    match m {
        ProgramBlockModel::Cond(cm) => match (cm.true_branch, cm.false_branch) {
            (Some(t), Some(f)) => !t.is_running && f.is_running,
            (Some(_), None) => true,
            (None, Some(_)) => true,
            (None, None) => false,
        },
        _ => false,
    }
}

pub open spec fn cm_switched(cm: CondModel) -> CondModel {
    CondModel {
        true_branch: match cm.true_branch {
            Some(t) => Some(ArmModel { block: t.block, is_running: false }),
            None => None,
        },
        false_branch: match cm.false_branch {
            Some(f) => Some(ArmModel { block: f.block, is_running: true }),
            None => None,
        },
    }
}

/// The conditional construct a frame materializes for the given arm
/// boundaries, as a model.
pub open spec fn materialized_model(shape: CondShape, code: Seq<Bytecode>) -> ProgramBlockModel {
    ProgramBlockModel::Cond(
        CondModel {
            true_branch: Some(
                ArmModel {
                    block: BlockModel {
                        pc: shape.true_start,
                        start: shape.true_start,
                        end: Some(shape.true_end),
                        code,
                    },
                    is_running: true,
                },
            ),
            false_branch: match shape.false_arm {
                Some(fa) => Some(
                    ArmModel {
                        block: BlockModel { pc: fa.0, start: fa.0, end: Some(fa.1), code },
                        is_running: false,
                    },
                ),
                None => None,
            },
        },
    )
}

/// Mapping suspended units to models commutes with push and pop.
proof fn lemma_models_push(sq: Seq<ProgramBlock>, pb: ProgramBlock)
    ensures
        models_of(sq.push(pb)) == models_of(sq).push(model_of_pb(pb)),
        models_of(sq).len() == sq.len(),
{
    assert(models_of(sq.push(pb)) =~= models_of(sq).push(model_of_pb(pb)));
}

proof fn lemma_models_drop_last(sq: Seq<ProgramBlock>)
    requires
        sq.len() > 0,
    ensures
        models_of(sq.drop_last()) == models_of(sq).drop_last(),
        models_of(sq).last() == model_of_pb(sq.last()),
        models_of(sq).len() == sq.len(),
{
    assert(models_of(sq.drop_last()) =~= models_of(sq).drop_last());
}

/// The model predicates agree with the value-level ones.
proof fn lemma_model_predicates(pb: ProgramBlock)
    ensures
        pbm_has_active(model_of_pb(pb)) == pb.has_active(),
        pbm_is_switch(model_of_pb(pb)) == is_switch_case(pb),
        pbm_is_merge(model_of_pb(pb)) == is_merge_case(pb),
        pb.has_active() ==> pbm_active(model_of_pb(pb)) == model_of_block(pb.active_block()),
{
}

/// Setting the executing block's program counter commutes with modeling.
proof fn lemma_model_set_pc(pb: ProgramBlock, next: u16)
    requires
        pb.has_active(),
    ensures
        model_of_pb(pb_set_pc(pb, next)) == pbm_set_pc(model_of_pb(pb), next),
{
    assert(model_of_pb(pb_set_pc(pb, next)) =~= pbm_set_pc(model_of_pb(pb), next));
}

/// Switching arms commutes with modeling.
proof fn lemma_model_switch(cb: ConditionalBlock)
    ensures
        model_of_pb(ProgramBlock::ConditionalBlock(cb_switched(cb))) == ProgramBlockModel::Cond(
            cm_switched(model_of_cb(cb)),
        ),
{
    assert(model_of_pb(ProgramBlock::ConditionalBlock(cb_switched(cb))) =~= ProgramBlockModel::Cond(
        cm_switched(model_of_cb(cb)),
    ));
}

/// A materialized construct's model is fixed by its arm boundaries.
proof fn lemma_model_materialized(pb: ProgramBlock, shape: CondShape, code: Seq<Bytecode>)
    requires
        pb_matches_shape(pb, shape, code),
    ensures
        model_of_pb(pb) == materialized_model(shape, code),
{
    assert(model_of_pb(pb) =~= materialized_model(shape, code));
}

/// A frame run does not read the incoming machine's program counter (it
/// is overwritten by the executing block's own).
proof fn lemma_frame_run_pc_irrelevant(
    code: Seq<Bytecode>,
    current: ProgramBlockModel,
    suspended: Seq<ProgramBlockModel>,
    a: MachineState,
    b: MachineState,
)
    requires
        pbm_has_active(current),
        a.step == b.step,
        a.stack == b.stack,
        a.locals == b.locals,
        a.wires == b.wires,
        a.gates == b.gates,
    ensures
        spec_frame_run(code, current, suspended, a) == spec_frame_run(code, current, suspended, b),
{
    let active = pbm_active(current);
    assert(MachineState { pc: active.pc, ..a } =~= MachineState { pc: active.pc, ..b });
}

/// A block run only moves the step counter forward; a successful run
/// executes at least one instruction, and never more than its fuel.
pub proof fn lemma_block_run_steps(
    code: Seq<Bytecode>,
    end: Option<u16>,
    st: MachineState,
    fuel: nat,
)
    requires
        fuel <= u64::MAX - st.step,
    ensures
        ({
            let (st2, r) = spec_block_run(code, end, st, fuel);
            &&& st2.step >= st.step
            &&& st2.step - st.step <= fuel
            &&& (r is Ok ==> st2.step > st.step)
        }),
    decreases fuel,
{
    if fuel == 0 {
    } else if st.pc >= code.len() {
    } else {
        match spec_step(code, st) {
            SpecOutcome::Next(st2) => {
                if end == Some(st2.pc) {
                } else {
                    lemma_block_run_steps(
                        code,
                        end,
                        MachineState { pc: (st2.pc + 1) as u16, ..st2 },
                        (fuel - 1) as nat,
                    );
                }
            },
            SpecOutcome::Jumped(st2) => {
                lemma_block_run_steps(code, end, st2, (fuel - 1) as nat);
            },
            SpecOutcome::Exit(st2, status) => {
            },
            SpecOutcome::Fail(st2, e) => {
            },
        }
    }
}

/// The outcome of one whole frame run: the final execution unit, suspend
/// stack, machine, and the event or failure reported.
#[verifier::ext_equal]
pub struct FrameRun {
    pub current: ProgramBlockModel,
    pub suspended: Seq<ProgramBlockModel>,
    pub machine: MachineState,
    pub result: VmResult<ExitStatus>,
}

/// A whole frame run: run the executing block, then materialize, switch
/// or merge per the event, until the frame returns, calls out, or fails.
/// The machine's program counter tracks the executing block's.
pub open spec fn spec_frame_run(
    code: Seq<Bytecode>,
    current: ProgramBlockModel,
    suspended: Seq<ProgramBlockModel>,
    st: MachineState,
) -> FrameRun
    decreases u64::MAX - st.step,
        via spec_frame_run_decreases
{
    if !pbm_has_active(current) {
        FrameRun {
            current,
            suspended,
            machine: st,
            result: Err(RuntimeError { status: StatusCode::ShouldNotReachHere }),
        }
    } else {
        let active = pbm_active(current);
        let run = spec_block_run(
            active.code,
            active.end,
            MachineState { pc: active.pc, ..st },
            (u64::MAX - st.step) as nat,
        );
        let st2 = run.0;
        let cur2 = pbm_set_pc(current, st2.pc);
        match run.1 {
            Err(e) => FrameRun { current: cur2, suspended, machine: st2, result: Err(e) },
            Ok(status) => match status {
                ExitStatus::Return => FrameRun {
                    current: cur2,
                    suspended,
                    machine: st2,
                    result: Ok(ExitStatus::Return),
                },
                ExitStatus::Call(i) => FrameRun {
                    current: cur2,
                    suspended,
                    machine: st2,
                    result: Ok(ExitStatus::Call(i)),
                },
                ExitStatus::ConditionalBranch(p) => match scan_conditional(code, p as int) {
                    Ok(shape) => spec_frame_run(
                        code,
                        materialized_model(shape, code),
                        suspended.push(cur2),
                        st2,
                    ),
                    Err(e) => FrameRun { current: cur2, suspended, machine: st2, result: Err(e) },
                },
                ExitStatus::BranchEnd(p) => if pbm_is_switch(cur2) {
                    spec_frame_run(
                        code,
                        ProgramBlockModel::Cond(cm_switched(cur2->Cond_0)),
                        suspended,
                        st2,
                    )
                } else if pbm_is_merge(cur2) {
                    if suspended.len() == 0 {
                        FrameRun {
                            current: cur2,
                            suspended,
                            machine: st2,
                            result: Err(RuntimeError { status: StatusCode::ShouldNotReachHere }),
                        }
                    } else {
                        spec_frame_run(
                            code,
                            pbm_set_pc(suspended.last(), (p + 1) as u16),
                            suspended.drop_last(),
                            st2,
                        )
                    }
                } else {
                    FrameRun {
                        current: cur2,
                        suspended,
                        machine: st2,
                        result: Err(RuntimeError { status: StatusCode::ShouldNotReachHere }),
                    }
                },
            },
        }
    }
}

#[via_fn]
proof fn spec_frame_run_decreases(
    code: Seq<Bytecode>,
    current: ProgramBlockModel,
    suspended: Seq<ProgramBlockModel>,
    st: MachineState,
) {
    if pbm_has_active(current) {
        let active = pbm_active(current);
        lemma_block_run_steps(
            active.code,
            active.end,
            MachineState { pc: active.pc, ..st },
            (u64::MAX - st.step) as nat,
        );
    }
}

/// One guest function activation: the unit currently executing, the
/// suspend stack of enclosing conditional constructs, the function, and
/// the frame's local-variable slots.
///
/// The locals are owned by the frame and shared by every block and arm
/// executed under it, so both arms of a conditional observe the same
/// local state and mutations survive the merge.
pub struct Frame {
    pub current_block: ProgramBlock,
    pub blocks: BlockStack,
    pub function: Function,
    pub locals: Locals,
}

impl Frame {
    /// Every program block of the frame is well formed and resumable.
    pub open spec fn wf(self) -> bool {
        &&& self.function.wf()
        &&& self.current_block.wf()
        &&& self.current_block.has_active()
        &&& forall|i: int|
            0 <= i < self.blocks@.len() ==> (#[trigger] self.blocks@[i]).wf()
                && self.blocks@[i].has_active()
    }

    /// A frame over the function's whole body, with the given locals.
    pub fn new(pc: u16, start: u16, end: Option<u16>, function: Function, locals: Locals) -> (r:
        Self)
        requires
            function.wf(),
        ensures
            r.wf(),
            r.function == function,
            r.locals == locals,
            r.blocks@.len() == 0,
            ({
                &&& r.current_block matches ProgramBlock::Block(b)
                &&& b.pc == pc
                &&& b.start == start
                &&& b.end == end
                &&& b.code@ == function.spec_code()
            }),
    {
        let code = copy_code(&function.code);
        let func_body = ProgramBlock::new_block(pc, start, end, code);
        Frame { current_block: func_body, blocks: BlockStack::new(), function, locals }
    }

    /// The unit currently executing.
    pub fn current_block(&self) -> (r: &ProgramBlock)
        ensures
            *r == self.current_block,
    {
        &self.current_block
    }

    /// The function this frame activates.
    pub fn func(&self) -> (r: &Function)
        ensures
            *r == self.function,
    {
        &self.function
    }

    /// Recover the arm boundaries at `pc` and build the conditional
    /// construct, without touching the frame.
    pub fn prepare_conditional_block(&self, pc: u16) -> (r: VmResult<ProgramBlock>)
        requires
            self.function.wf(),
        ensures
            scan_conditional(self.function.spec_code(), pc as int) matches Ok(shape) ==> (r
                matches Ok(pb) && pb_matches_shape(pb, shape, self.function.spec_code())),
            scan_conditional(self.function.spec_code(), pc as int) matches Err(e) ==> r == Err::<
                ProgramBlock,
                RuntimeError,
            >(e),
    {
        let code = &self.function.code;
        if !((pc as usize) < code.len() && (pc as usize) + 1 < code.len()) {
            return Err(RuntimeError::new(StatusCode::ProgramBlockError));
        }
        let true_branch_start = match code[pc as usize] {
            Bytecode::BrTrue(offset) => offset,
            _ => {
                return Err(RuntimeError::new(StatusCode::ProgramBlockError));
            },
        };
        let false_target = match code[(pc + 1) as usize] {
            Bytecode::Branch(offset) => offset,
            _ => {
                return Err(RuntimeError::new(StatusCode::ProgramBlockError));
            },
        };
        if !(1 <= false_target && ((false_target - 1) as usize) < code.len()) {
            return Err(RuntimeError::new(StatusCode::ProgramBlockError));
        }
        let true_branch_end = false_target - 1;
        match code[true_branch_end as usize] {
            Bytecode::Branch(merge_target) => {
                if !(false_target >= 2 && merge_target >= 1) {
                    return Err(RuntimeError::new(StatusCode::ProgramBlockError));
                }
                // The jump that skips the true arm is not part of its body.
                let true_branch = Block::new(
                    true_branch_start,
                    true_branch_start,
                    Some(true_branch_end - 1),
                    copy_code(code),
                );
                let false_branch_start = true_branch_end + 1;
                let false_branch_end = merge_target - 1;
                let false_branch = Block::new(
                    false_branch_start,
                    false_branch_start,
                    Some(false_branch_end),
                    copy_code(code),
                );
                Ok(ProgramBlock::new_conditional_block(Some(true_branch), Some(false_branch)))
            },
            _ => {
                let true_branch = Block::new(
                    true_branch_start,
                    true_branch_start,
                    Some(true_branch_end),
                    copy_code(code),
                );
                Ok(ProgramBlock::new_conditional_block(Some(true_branch), None))
            },
        }
    }

    /// Materialize the conditional construct at `pc`: suspend the current
    /// unit and make the construct current.  A malformed byte pattern
    /// fails without mutating the frame, its suspend stack included.
    pub fn handle_conditional_branch(&mut self, pc: u16) -> (r: VmResult<()>)
        requires
            old(self).wf(),
        ensures
            final(self).wf(),
            final(self).function == old(self).function,
            final(self).locals == old(self).locals,
            scan_conditional(old(self).function.spec_code(), pc as int) matches Err(e) ==> r
                == Err::<(), RuntimeError>(e) && *final(self) == *old(self),
            scan_conditional(old(self).function.spec_code(), pc as int) matches Ok(shape) ==> r
                is Ok && final(self).blocks@ == old(self).blocks@.push(old(self).current_block)
                && pb_matches_shape(
                final(self).current_block,
                shape,
                old(self).function.spec_code(),
            ),
    {
        let block = match self.prepare_conditional_block(pc) {
            Ok(b) => b,
            Err(e) => {
                return Err(e);
            },
        };
        let mut suspended = block;
        core::mem::swap(&mut self.current_block, &mut suspended);
        self.blocks.push(suspended);
        Ok(())
    }

    /// React to an arm reaching its end boundary at `pc`: if the true arm
    /// of a two-armed construct finished, start the false arm, so both
    /// arms are executed and constrained exactly once; otherwise pop the
    /// suspended unit and resume it just past the merge point.  Any other
    /// state is an internal invariant violation.
    pub fn handle_branch_end(&mut self, pc: u16) -> (r: VmResult<()>)
        requires
            old(self).wf(),
            pc < 0xFFFF,
        ensures
            final(self).wf(),
            final(self).function == old(self).function,
            final(self).locals == old(self).locals,
            is_switch_case(old(self).current_block) ==> r is Ok && final(self).blocks@ == old(
                self,
            ).blocks@ && final(self).current_block == ProgramBlock::ConditionalBlock(
                cb_switched(old(self).current_block->ConditionalBlock_0),
            ),
            is_merge_case(old(self).current_block) && old(self).blocks@.len() > 0 ==> r is Ok
                && final(self).blocks@ == old(self).blocks@.drop_last() && final(self).current_block
                == pb_set_pc(old(self).blocks@.last(), (pc + 1) as u16),
            is_merge_case(old(self).current_block) && old(self).blocks@.len() == 0 ==> (r
                matches Err(e) && e.status == StatusCode::ShouldNotReachHere) && *final(self)
                == *old(self),
            !is_switch_case(old(self).current_block) && !is_merge_case(old(self).current_block)
                ==> (r matches Err(e) && e.status == StatusCode::ShouldNotReachHere) && *final(self)
                == *old(self),
    {
        let mut do_switch = false;
        let mut do_merge = false;
        match &self.current_block {
            ProgramBlock::ConditionalBlock(cb) => {
                let t_present = cb.true_branch.is_some();
                let f_present = cb.false_branch.is_some();
                let t_running = match &cb.true_branch {
                    Some(t) => t.is_running,
                    None => false,
                };
                let f_running = match &cb.false_branch {
                    Some(f) => f.is_running,
                    None => false,
                };
                if t_present && f_present {
                    if t_running {
                        do_switch = true;
                    } else if f_running {
                        do_merge = true;
                    }
                } else if t_present || f_present {
                    do_merge = true;
                }
            },
            ProgramBlock::Block(_) => {},
        }
        if do_switch {
            match &mut self.current_block {
                ProgramBlock::ConditionalBlock(cb) => {
                    match &mut cb.true_branch {
                        Some(t) => {
                            t.is_running = false;
                        },
                        None => {},
                    }
                    match &mut cb.false_branch {
                        Some(f) => {
                            f.is_running = true;
                        },
                        None => {},
                    }
                },
                ProgramBlock::Block(_) => {},
            }
            return Ok(());
        }
        if !do_merge {
            return Err(RuntimeError::new(StatusCode::ShouldNotReachHere));
        }
        // Merge: resume the suspended unit just past the merge point.
        match self.blocks.pop() {
            Some(suspended) => {
                let mut resumed = suspended;
                resumed.set_pc(pc + 1);
                self.current_block = resumed;
                Ok(())
            },
            None => Err(RuntimeError::new(StatusCode::ShouldNotReachHere)),
        }
    }

    /// Drive the frame until it returns or calls out, materializing and
    /// merging conditional constructs along the way.  The whole run, its
    /// effects included, is the mathematical frame run `spec_frame_run`.
    pub fn execute(&mut self, interp: &mut Interpreter, chip: &mut EvaluationChip) -> (r: VmResult<
        ExitStatus,
    >)
        requires
            old(self).wf(),
            all_live(old(interp).stack@),
        ensures
            final(self).wf(),
            final(self).function == old(self).function,
            all_live(final(interp).stack@),
            final(self).locals@.len() == old(self).locals@.len(),
            old(chip).constraints@.is_prefix_of(final(chip).constraints@),
            r matches Ok(st) ==> (st is Return || st is Call),
            r matches Ok(st) ==> exit_ok(final(self).current_block.active_block(), st)
                && final(interp).step > old(interp).step,
            r matches Err(e) ==> !(e.status is SynthesisError),
            ({
                let run = spec_frame_run(
                    old(self).function.spec_code(),
                    model_of_pb(old(self).current_block),
                    models_of(old(self).blocks@),
                    machine_of(
                        old(self).current_block.active_block(),
                        *old(interp),
                        old(self).locals,
                        *old(chip),
                    ),
                );
                &&& model_of_pb(final(self).current_block) == run.current
                &&& models_of(final(self).blocks@) == run.suspended
                &&& machine_of(
                    final(self).current_block.active_block(),
                    *final(interp),
                    final(self).locals,
                    *final(chip),
                ) == run.machine
                &&& r == run.result
            }),
    {
        loop
            invariant
                self.wf(),
                self.function == old(self).function,
                all_live(interp.stack@),
                self.locals@.len() == old(self).locals@.len(),
                old(chip).constraints@.is_prefix_of(chip.constraints@),
                interp.step >= old(interp).step,
                spec_frame_run(
                    old(self).function.spec_code(),
                    model_of_pb(self.current_block),
                    models_of(self.blocks@),
                    machine_of(self.current_block.active_block(), *interp, self.locals, *chip),
                ) == spec_frame_run(
                    old(self).function.spec_code(),
                    model_of_pb(old(self).current_block),
                    models_of(old(self).blocks@),
                    machine_of(
                        old(self).current_block.active_block(),
                        *old(interp),
                        old(self).locals,
                        *old(chip),
                    ),
                ),
            decreases u64::MAX - interp.step,
        {
            let ghost pre_pb = self.current_block;
            let ghost pre_susp = self.blocks@;
            let ghost pre_m = machine_of(
                self.current_block.active_block(),
                *interp,
                self.locals,
                *chip,
            );
            proof {
                lemma_model_predicates(pre_pb);
                assert(MachineState { pc: pbm_active(model_of_pb(pre_pb)).pc, ..pre_m } =~= pre_m);
            }
            let status_r = ProgramBlock::execute(
                &mut self.current_block,
                &mut self.locals,
                interp,
                chip,
            );
            proof {
                crate::circuit::lemma_constraints_prefix_trans(
                    old(chip).constraints@,
                    chip.constraints@,
                );
                lemma_model_predicates(self.current_block);
                assert(model_of_pb(self.current_block) =~= pbm_set_pc(
                    model_of_pb(pre_pb),
                    self.current_block.active_block().pc,
                ));
            }
            let status = match status_r {
                Ok(st) => st,
                Err(e) => {
                    return Err(e);
                },
            };
            match status {
                ExitStatus::Return => {
                    return Ok(ExitStatus::Return);
                },
                ExitStatus::Call(index) => {
                    return Ok(ExitStatus::Call(index));
                },
                ExitStatus::ConditionalBranch(pc) => {
                    let ghost mid_pb = self.current_block;
                    match self.handle_conditional_branch(pc) {
                        Ok(()) => {
                            proof {
                                let code0 = old(self).function.spec_code();
                                let shape = scan_conditional(code0, pc as int)->Ok_0;
                                lemma_models_push(pre_susp, mid_pb);
                                lemma_model_materialized(self.current_block, shape, code0);
                                lemma_model_predicates(self.current_block);
                                lemma_frame_run_pc_irrelevant(
                                    code0,
                                    model_of_pb(self.current_block),
                                    models_of(self.blocks@),
                                    machine_of(mid_pb.active_block(), *interp, self.locals, *chip),
                                    machine_of(
                                        self.current_block.active_block(),
                                        *interp,
                                        self.locals,
                                        *chip,
                                    ),
                                );
                            }
                        },
                        Err(e) => {
                            return Err(e);
                        },
                    }
                },
                ExitStatus::BranchEnd(pc) => {
                    let ghost mid_pb = self.current_block;
                    proof {
                        lemma_model_predicates(mid_pb);
                    }
                    match self.handle_branch_end(pc) {
                        Ok(()) => {
                            proof {
                                let code0 = old(self).function.spec_code();
                                if is_switch_case(mid_pb) {
                                    lemma_model_switch(mid_pb->ConditionalBlock_0);
                                } else {
                                    lemma_models_drop_last(pre_susp);
                                    lemma_model_set_pc(pre_susp.last(), (pc + 1) as u16);
                                }
                                lemma_model_predicates(self.current_block);
                                lemma_frame_run_pc_irrelevant(
                                    code0,
                                    model_of_pb(self.current_block),
                                    models_of(self.blocks@),
                                    machine_of(mid_pb.active_block(), *interp, self.locals, *chip),
                                    machine_of(
                                        self.current_block.active_block(),
                                        *interp,
                                        self.locals,
                                        *chip,
                                    ),
                                );
                            }
                        },
                        Err(e) => {
                            return Err(e);
                        },
                    }
                },
            }
        }
    }
}

} // verus!
