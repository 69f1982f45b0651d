//! The bounded LIFO stacks of the interpreter.
//!
//! The evaluation stack holds values, the call stack frames, and the
//! suspend stack program blocks.  All three are strict LIFO containers;
//! the first two are bounded, and exceeding a bound or popping an empty
//! stack is an error.  All protocol logic lives elsewhere.

use vstd::prelude::*;

use crate::errors::{RuntimeError, StatusCode, VmResult};
use crate::frame::{Frame, ProgramBlock};
use crate::value::Value;

verus! {

/// The bound of the evaluation stack.
pub const EVAL_STACK_SIZE: usize = 256;

/// The bound of the call stack.
pub const CALL_STACK_SIZE: usize = 256;

/// What a bounded push does to a stack of values.
pub open spec fn spec_push(s: Seq<Value>, v: Value) -> Result<Seq<Value>, RuntimeError> {
    if s.len() < EVAL_STACK_SIZE {
        Ok(s.push(v))
    } else {
        Err(RuntimeError { status: StatusCode::StackOverflow })
    }
}

/// What a pop does to a stack of values: the last value pushed leaves first.
pub open spec fn spec_pop(s: Seq<Value>) -> Result<(Value, Seq<Value>), RuntimeError> {
    if s.len() == 0 {
        Err(RuntimeError { status: StatusCode::StackUnderflow })
    } else {
        Ok((s.last(), s.drop_last()))
    }
}

/// What a whole sequence of pushes does, first element pushed first.
pub open spec fn spec_push_all(s: Seq<Value>, vs: Seq<Value>) -> Result<Seq<Value>, RuntimeError>
    decreases vs.len(),
{
    if vs.len() == 0 {
        Ok(s)
    } else {
        match spec_push(s, vs[0]) {
            Ok(s2) => spec_push_all(s2, vs.drop_first()),
            Err(e) => Err(e),
        }
    }
}

/// Pushing a sequence that fits succeeds and appends it in order.
pub proof fn lemma_push_all_appends(s: Seq<Value>, vs: Seq<Value>)
    requires
        s.len() + vs.len() <= EVAL_STACK_SIZE,
    ensures
        spec_push_all(s, vs) == Ok::<Seq<Value>, RuntimeError>(s + vs),
    decreases vs.len(),
{
    if vs.len() == 0 {
        assert(s + vs =~= s);
    } else {
        lemma_push_all_appends(s.push(vs[0]), vs.drop_first());
        assert(s.push(vs[0]) + vs.drop_first() =~= s + vs);
    }
}

/// The LIFO discipline: any sequence of up to 256 pushes on a fresh stack
/// succeeds and leaves exactly that sequence, every pop then returns the
/// values in strict reverse order, one more push fails with a stack
/// overflow, and a pop of an emptied stack fails with a stack underflow.
pub proof fn lemma_eval_stack_lifo(vs: Seq<Value>, extra: Value)
    requires
        vs.len() <= EVAL_STACK_SIZE,
    ensures
        spec_push_all(Seq::empty(), vs) == Ok::<Seq<Value>, RuntimeError>(vs),
        forall|i: int|
            0 < i <= vs.len() ==> #[trigger] spec_pop(vs.take(i)) == Ok::<
                (Value, Seq<Value>),
                RuntimeError,
            >((vs[i - 1], vs.take(i - 1))),
        vs.len() == EVAL_STACK_SIZE ==> spec_push(vs, extra) == Err::<Seq<Value>, RuntimeError>(
            RuntimeError { status: StatusCode::StackOverflow },
        ),
        spec_pop(Seq::empty()) == Err::<(Value, Seq<Value>), RuntimeError>(
            RuntimeError { status: StatusCode::StackUnderflow },
        ),
{
    lemma_push_all_appends(Seq::empty(), vs);
    assert(Seq::empty() + vs =~= vs);
    assert forall|i: int| 0 < i <= vs.len() implies #[trigger] spec_pop(vs.take(i)) == Ok::<
        (Value, Seq<Value>),
        RuntimeError,
    >((vs[i - 1], vs.take(i - 1))) by {
        assert(vs.take(i).last() == vs[i - 1]);
        assert(vs.take(i).drop_last() =~= vs.take(i - 1));
    }
}

/// The evaluation stack: a bounded LIFO stack of values.
pub struct EvalStack {
    values: Vec<Value>,
}

impl View for EvalStack {
    type V = Seq<Value>;

    closed spec fn view(&self) -> Seq<Value> {
        self.values@
    }
}

impl EvalStack {
    pub fn new() -> (s: Self)
        ensures
            s@ =~= Seq::<Value>::empty(),
    {
        EvalStack { values: Vec::new() }
    }

    pub fn len(&self) -> (n: usize)
        ensures
            n == self@.len(),
    {
        self.values.len()
    }

    /// Push a value; fails with a stack overflow at the bound.
    pub fn push(&mut self, value: Value) -> (r: VmResult<()>)
        ensures
            spec_push(old(self)@, value) matches Ok(s2) ==> r is Ok && final(self)@ == s2,
            spec_push(old(self)@, value) matches Err(e) ==> r == Err::<(), RuntimeError>(e)
                && *final(self) == *old(self),
    {
        if self.values.len() < EVAL_STACK_SIZE {
            self.values.push(value);
            Ok(())
        } else {
            Err(RuntimeError::new(StatusCode::StackOverflow))
        }
    }

    /// Pop the most recently pushed value; fails on an empty stack.
    pub fn pop(&mut self) -> (r: VmResult<Value>)
        ensures
            spec_pop(old(self)@) matches Ok(p) ==> r == Ok::<Value, RuntimeError>(p.0)
                && final(self)@ == p.1,
            spec_pop(old(self)@) matches Err(e) ==> r == Err::<Value, RuntimeError>(e)
                && *final(self) == *old(self),
    {
        if self.values.len() == 0 {
            Err(RuntimeError::new(StatusCode::StackUnderflow))
        } else {
            let i = self.values.len() - 1;
            let v = self.values.remove(i);
            proof {
                assert(final(self)@ =~= old(self)@.drop_last());
            }
            Ok(v)
        }
    }

    /// A non-consuming peek at the most recently pushed value.
    pub fn top(&self) -> (r: Option<&Value>)
        ensures
            self@.len() == 0 ==> r is None,
            self@.len() > 0 ==> (r matches Some(v) && *v == self@.last()),
    {
        if self.values.len() == 0 {
            None
        } else {
            Some(&self.values[self.values.len() - 1])
        }
    }
}

/// The call stack: a bounded LIFO stack of frames.
pub struct CallStack {
    frames: Vec<Frame>,
}

impl View for CallStack {
    type V = Seq<Frame>;

    closed spec fn view(&self) -> Seq<Frame> {
        self.frames@
    }
}

impl CallStack {
    pub fn new() -> (s: Self)
        ensures
            s@ =~= Seq::<Frame>::empty(),
    {
        CallStack { frames: Vec::new() }
    }

    pub fn len(&self) -> (n: usize)
        ensures
            n == self@.len(),
    {
        self.frames.len()
    }

    /// Push a frame; fails with a stack overflow at the bound.
    pub fn push(&mut self, frame: Frame) -> (r: VmResult<()>)
        ensures
            old(self)@.len() < CALL_STACK_SIZE ==> r is Ok && final(self)@ == old(self)@.push(
                frame,
            ),
            old(self)@.len() >= CALL_STACK_SIZE ==> (r matches Err(e) && e.status
                == StatusCode::StackOverflow) && *final(self) == *old(self),
    {
        if self.frames.len() < CALL_STACK_SIZE {
            self.frames.push(frame);
            Ok(())
        } else {
            Err(RuntimeError::new(StatusCode::StackOverflow))
        }
    }

    /// Pop the most recently pushed frame; fails on an empty stack.
    pub fn pop(&mut self) -> (r: VmResult<Frame>)
        ensures
            old(self)@.len() == 0 ==> (r matches Err(e) && e.status == StatusCode::StackUnderflow)
                && *final(self) == *old(self),
            old(self)@.len() > 0 ==> (r matches Ok(f) && f == old(self)@.last()) && final(self)@
                == old(self)@.drop_last(),
    {
        if self.frames.len() == 0 {
            Err(RuntimeError::new(StatusCode::StackUnderflow))
        } else {
            let i = self.frames.len() - 1;
            let f = self.frames.remove(i);
            proof {
                assert(final(self)@ =~= old(self)@.drop_last());
            }
            Ok(f)
        }
    }

    /// A non-consuming peek at the most recently pushed frame.
    pub fn top(&self) -> (r: Option<&Frame>)
        ensures
            self@.len() == 0 ==> r is None,
            self@.len() > 0 ==> (r matches Some(f) && *f == self@.last()),
    {
        if self.frames.len() == 0 {
            None
        } else {
            Some(&self.frames[self.frames.len() - 1])
        }
    }
}

/// A frame's suspend stack: the program blocks of enclosing conditional
/// constructs, innermost last.
pub struct BlockStack {
    blocks: Vec<ProgramBlock>,
}

impl View for BlockStack {
    type V = Seq<ProgramBlock>;

    closed spec fn view(&self) -> Seq<ProgramBlock> {
        self.blocks@
    }
}

impl BlockStack {
    pub fn new() -> (s: Self)
        ensures
            s@ =~= Seq::<ProgramBlock>::empty(),
    {
        BlockStack { blocks: Vec::new() }
    }

    pub fn len(&self) -> (n: usize)
        ensures
            n == self@.len(),
    {
        self.blocks.len()
    }

    /// Push a suspended program block.  Conditional constructs may nest to
    /// arbitrary depth, so this stack has no bound.
    pub fn push(&mut self, block: ProgramBlock)
        ensures
            final(self)@ == old(self)@.push(block),
    {
        self.blocks.push(block);
    }

    /// Pop the innermost suspended program block, if any.
    pub fn pop(&mut self) -> (r: Option<ProgramBlock>)
        ensures
            old(self)@.len() == 0 ==> r is None && *final(self) == *old(self),
            old(self)@.len() > 0 ==> (r matches Some(b) && b == old(self)@.last()) && final(self)@
                == old(self)@.drop_last(),
    {
        if self.blocks.len() == 0 {
            None
        } else {
            let i = self.blocks.len() - 1;
            let b = self.blocks.remove(i);
            proof {
                assert(final(self)@ =~= old(self)@.drop_last());
            }
            Some(b)
        }
    }
}

} // verus!
