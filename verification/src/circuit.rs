//! The constraint-system backend: wire allocation and the recording of
//! multiplication-gate constraints.
//!
//! Every arithmetic or comparison instruction of the guest program lowers
//! to exactly one gate `a * b = c`, where `a`, `b` and `c` are linear
//! combinations of wires and of the constant one.

use vstd::prelude::*;

use crate::errors::VmResult;
use crate::field::{f_add, f_mul, f_sub, Fr};
use crate::value::{Cell, FVariable, MoveValueType, Value};

verus! {

/// A variable of a linear combination: the constant one, or a wire.
#[derive(Clone, Copy, Debug, PartialEq, Eq, Structural)]
pub enum LcVar {
    One,
    Wire(usize),
}

/// One summand of a linear combination.
#[derive(Clone, Copy, Debug)]
pub struct Term {
    pub coeff: Fr,
    pub var: LcVar,
}

/// One multiplication-gate constraint `a * b = c`.
#[derive(Clone, Debug)]
pub struct Constraint {
    pub a: Vec<Term>,
    pub b: Vec<Term>,
    pub c: Vec<Term>,
}

/// The linear combination that stands for a value: a constant contributes
/// itself on the constant-one variable, a wire-bound variable contributes
/// its wire with coefficient one, and an unbound value contributes nothing.
pub open spec fn spec_lc_of(v: Value) -> Seq<Term> {
    match v {
        Value::Invalid => Seq::empty(),
        Value::Constant(c) => seq![(Term { coeff: c.value, var: LcVar::One })],
        Value::Variable(fv) => match fv.cell {
            Some(cell) => seq![(Term { coeff: Fr::spec_one(), var: LcVar::Wire(cell.index) })],
            None => Seq::empty(),
        },
    }
}

/// A term with coefficient one on the given variable.
pub open spec fn is_unit_term(t: Term, var: LcVar) -> bool {
    t.var == var && t.coeff.as_int() == 1
}

/// `r` is `lc` with every coefficient negated in the field.
pub open spec fn is_neg_of(r: Seq<Term>, lc: Seq<Term>) -> bool {
    &&& r.len() == lc.len()
    &&& forall|i: int|
        0 <= i < lc.len() ==> (#[trigger] r[i]).var == lc[i].var && r[i].coeff.as_int() == f_sub(
            0,
            lc[i].coeff.as_int(),
        )
}

/// A sum gate `(lc(a) + lc(b)) * 1 = w`.
pub open spec fn is_sum_gate(g: Constraint, a: Value, b: Value, w: usize) -> bool {
    &&& g.a@ == spec_lc_of(a) + spec_lc_of(b)
    &&& g.b@.len() == 1 && is_unit_term(g.b@[0], LcVar::One)
    &&& g.c@.len() == 1 && is_unit_term(g.c@[0], LcVar::Wire(w))
}

/// A difference gate `(lc(a) - lc(b)) * 1 = w`.
pub open spec fn is_diff_gate(g: Constraint, a: Value, b: Value, w: usize) -> bool {
    &&& g.a@.len() == spec_lc_of(a).len() + spec_lc_of(b).len()
    &&& g.a@.subrange(0, spec_lc_of(a).len() as int) == spec_lc_of(a)
    &&& is_neg_of(g.a@.subrange(spec_lc_of(a).len() as int, g.a@.len() as int), spec_lc_of(b))
    &&& g.b@.len() == 1 && is_unit_term(g.b@[0], LcVar::One)
    &&& g.c@.len() == 1 && is_unit_term(g.c@[0], LcVar::Wire(w))
}

/// A product gate `lc(a) * lc(b) = w`.
pub open spec fn is_prod_gate(g: Constraint, a: Value, b: Value, w: usize) -> bool {
    &&& g.a@ == spec_lc_of(a)
    &&& g.b@ == spec_lc_of(b)
    &&& g.c@.len() == 1 && is_unit_term(g.c@[0], LcVar::Wire(w))
}

/// An equality gate `(lc(a) - lc(b)) * w = 0`, which pins the indicator wire `w` to
/// zero whenever the operands differ.
pub open spec fn is_eq_gate(g: Constraint, a: Value, b: Value, w: usize) -> bool {
    &&& g.a@.len() == spec_lc_of(a).len() + spec_lc_of(b).len()
    &&& g.a@.subrange(0, spec_lc_of(a).len() as int) == spec_lc_of(a)
    &&& is_neg_of(g.a@.subrange(spec_lc_of(a).len() as int, g.a@.len() as int), spec_lc_of(b))
    &&& g.b@.len() == 1 && is_unit_term(g.b@[0], LcVar::Wire(w))
    &&& g.c@.len() == 0
}

/// Prefix facts about the recorded constraints compose across calls.
pub proof fn lemma_constraints_prefix_trans(a: Seq<Constraint>, b: Seq<Constraint>)
    ensures
        forall|c: Seq<Constraint>|
            a.is_prefix_of(b) && b.is_prefix_of(c) ==> a.is_prefix_of(#[trigger] c.subrange(
                0,
                a.len() as int,
            )) && a.is_prefix_of(c),
{
    assert forall|c: Seq<Constraint>| a.is_prefix_of(b) && b.is_prefix_of(c) implies a.is_prefix_of(
        #[trigger] c.subrange(0, a.len() as int),
    ) && a.is_prefix_of(c) by {
        assert(a =~= c.subrange(0, a.len() as int));
    }
}

/// The constraint system under construction: a witness assignment, one
/// optional field element per wire, and the recorded gates.
pub struct EvaluationChip {
    pub wire_values: Vec<Option<Fr>>,
    pub constraints: Vec<Constraint>,
}

impl EvaluationChip {
    pub fn new() -> (r: Self)
        ensures
            r.wire_values@ =~= Seq::<Option<Fr>>::empty(),
            r.constraints@ =~= Seq::<Constraint>::empty(),
    {
        EvaluationChip { wire_values: Vec::new(), constraints: Vec::new() }
    }

    /// Allocate a fresh wire carrying the given (possibly missing) value.
    pub fn alloc_wire(&mut self, value: Option<Fr>) -> (w: usize)
        ensures
            w == old(self).wire_values@.len(),
            final(self).wire_values@ == old(self).wire_values@.push(value),
            final(self).constraints@ == old(self).constraints@,
    {
        let w = self.wire_values.len();
        self.wire_values.push(value);
        w
    }

    /// Record one multiplication-gate constraint `a * b = c`.
    pub fn enforce(&mut self, a: Vec<Term>, b: Vec<Term>, c: Vec<Term>)
        ensures
            final(self).constraints@.len() == old(self).constraints@.len() + 1,
            old(self).constraints@.is_prefix_of(final(self).constraints@),
            final(self).constraints@.last().a@ == a@,
            final(self).constraints@.last().b@ == b@,
            final(self).constraints@.last().c@ == c@,
            final(self).wire_values@ == old(self).wire_values@,
    {
        self.constraints.push(Constraint { a, b, c });
        proof {
            assert(final(self).constraints@.drop_last() =~= old(self).constraints@);
            assert(old(self).constraints@.is_prefix_of(final(self).constraints@));
        }
    }

    /// Materialize a literal: a fresh wire holding the constant, no gate.
    pub fn load_constant(&mut self, constant: Fr, ty: MoveValueType) -> (r: Value)
        ensures
            ({
                &&& r matches Value::Constant(c)
                &&& c.value == constant
                &&& c.ty == ty
                &&& c.cell matches Some(cell)
                &&& cell.index == old(self).wire_values@.len()
            }),
            final(self).wire_values@ == old(self).wire_values@.push(Some(constant)),
            final(self).constraints@ == old(self).constraints@,
    {
        let w = self.alloc_wire(Some(constant));
        Value::Constant(
            crate::value::FConstant { value: constant, cell: Some(Cell { index: w }), ty },
        )
    }

    /// Lower `left + right` to one sum gate and a fresh result wire.
    ///
    /// The concrete result exists only when both operand values are known;
    /// a gate is recorded either way, so the circuit structure does not
    /// depend on the witness.  The enclosing branch condition is accepted as
    /// part of the backend interface; this recorder emits the raw gate.
    pub fn add(&mut self, a: &Value, b: &Value, _enclosing_cond: Option<&Value>) -> (r: VmResult<
        Value,
    >)
        requires
            !(a is Invalid),
            !(b is Invalid),
        ensures
            binary_op_shape(
                *old(self),
                *final(self),
                r,
                *a,
                *b,
                a.spec_ty(),
                spec_known_both(*a, *b, |x: int, y: int| f_add(x, y)),
            ),
            r matches Ok(v) ==> is_sum_gate(
                final(self).constraints@.last(),
                *a,
                *b,
                old(self).wire_values@.len() as usize,
            ),
    {
        let value = binary_value(a, b, BinOp::Add);
        let w = self.alloc_wire(value);
        let lc = lc_concat(lc_of(a), &lc_of(b));
        self.enforce(lc, unit_lc(LcVar::One), unit_lc(LcVar::Wire(w)));
        Ok(Value::Variable(FVariable { value, cell: Some(Cell { index: w }), ty: a.ty() }))
    }

    /// Lower `left - right` to one difference gate and a fresh result wire.
    pub fn sub(&mut self, a: &Value, b: &Value, _enclosing_cond: Option<&Value>) -> (r: VmResult<
        Value,
    >)
        requires
            !(a is Invalid),
            !(b is Invalid),
        ensures
            binary_op_shape(
                *old(self),
                *final(self),
                r,
                *a,
                *b,
                a.spec_ty(),
                spec_known_both(*a, *b, |x: int, y: int| f_sub(x, y)),
            ),
            r matches Ok(v) ==> is_diff_gate(
                final(self).constraints@.last(),
                *a,
                *b,
                old(self).wire_values@.len() as usize,
            ),
    {
        let value = binary_value(a, b, BinOp::Sub);
        let w = self.alloc_wire(value);
        let nb = lc_neg(&lc_of(b));
        let lc = lc_concat(lc_of(a), &nb);
        proof {
            assert(lc@.subrange(0, spec_lc_of(*a).len() as int) =~= spec_lc_of(*a));
            assert(lc@.subrange(spec_lc_of(*a).len() as int, lc@.len() as int) =~= nb@);
        }
        self.enforce(lc, unit_lc(LcVar::One), unit_lc(LcVar::Wire(w)));
        Ok(Value::Variable(FVariable { value, cell: Some(Cell { index: w }), ty: a.ty() }))
    }

    /// Lower `left * right` to one product gate and a fresh result wire.
    pub fn mul(&mut self, a: &Value, b: &Value, _enclosing_cond: Option<&Value>) -> (r: VmResult<
        Value,
    >)
        requires
            !(a is Invalid),
            !(b is Invalid),
        ensures
            binary_op_shape(
                *old(self),
                *final(self),
                r,
                *a,
                *b,
                a.spec_ty(),
                spec_known_both(*a, *b, |x: int, y: int| f_mul(x, y)),
            ),
            r matches Ok(v) ==> is_prod_gate(
                final(self).constraints@.last(),
                *a,
                *b,
                old(self).wire_values@.len() as usize,
            ),
    {
        let value = binary_value(a, b, BinOp::Mul);
        let w = self.alloc_wire(value);
        self.enforce(lc_of(a), lc_of(b), unit_lc(LcVar::Wire(w)));
        Ok(Value::Variable(FVariable { value, cell: Some(Cell { index: w }), ty: a.ty() }))
    }

    /// Lower an equality comparison to one gate and a fresh boolean
    /// indicator wire, one when the operands are equal and zero otherwise.
    pub fn eq(&mut self, a: &Value, b: &Value, _enclosing_cond: Option<&Value>) -> (r: VmResult<
        Value,
    >)
        requires
            !(a is Invalid),
            !(b is Invalid),
        ensures
            binary_op_shape(
                *old(self),
                *final(self),
                r,
                *a,
                *b,
                MoveValueType::Bool,
                spec_known_both(
                    *a,
                    *b,
                    |x: int, y: int| if x == y {
                        1int
                    } else {
                        0int
                    },
                ),
            ),
            r matches Ok(v) ==> is_eq_gate(
                final(self).constraints@.last(),
                *a,
                *b,
                old(self).wire_values@.len() as usize,
            ),
    {
        let value = binary_value(a, b, BinOp::Eq);
        let w = self.alloc_wire(value);
        let nb = lc_neg(&lc_of(b));
        let lc = lc_concat(lc_of(a), &nb);
        proof {
            assert(lc@.subrange(0, spec_lc_of(*a).len() as int) =~= spec_lc_of(*a));
            assert(lc@.subrange(spec_lc_of(*a).len() as int, lc@.len() as int) =~= nb@);
        }
        self.enforce(lc, unit_lc(LcVar::Wire(w)), Vec::new());
        Ok(Value::Variable(FVariable { value, cell: Some(Cell { index: w }), ty: MoveValueType::Bool }))
    }
}

/// The result value owed by a binary operation: when both operands are
/// known, the field result of `op` on them; unknown otherwise.
pub open spec fn spec_known_both(a: Value, b: Value, op: spec_fn(int, int) -> int) -> Option<int> {
    if a.is_known() && b.is_known() {
        Some(op(a.spec_value().unwrap().as_int(), b.spec_value().unwrap().as_int()))
    } else {
        None
    }
}

/// What every binary chip operation does to the system and returns: one
/// fresh wire carrying the owed value, exactly one new gate, and a wire
/// variable tagged with the result type.
pub open spec fn binary_op_shape(
    pre: EvaluationChip,
    post: EvaluationChip,
    r: VmResult<Value>,
    a: Value,
    b: Value,
    ty: MoveValueType,
    owed: Option<int>,
) -> bool {
    &&& r matches Ok(v)
    &&& v matches Value::Variable(fv)
    &&& fv.ty == ty
    &&& fv.cell matches Some(cell) && cell.index == pre.wire_values@.len()
    &&& (match owed {
        Some(x) => fv.value matches Some(c) && c.as_int() == x,
        None => fv.value is None,
    })
    &&& post.wire_values@ == pre.wire_values@.push(fv.value)
    &&& post.constraints@.len() == pre.constraints@.len() + 1
    &&& pre.constraints@.is_prefix_of(post.constraints@)
}

/// Which binary operation a gate lowers.
#[derive(Clone, Copy, Debug, PartialEq, Eq, Structural)]
pub enum BinOp {
    Add,
    Sub,
    Mul,
    Eq,
}

/// Which gate shape each binary operation records.
pub open spec fn spec_gate_for(op: BinOp, g: Constraint, a: Value, b: Value, w: usize) -> bool {
    match op {
        BinOp::Add => is_sum_gate(g, a, b, w),
        BinOp::Sub => is_diff_gate(g, a, b, w),
        BinOp::Mul => is_prod_gate(g, a, b, w),
        BinOp::Eq => is_eq_gate(g, a, b, w),
    }
}

/// The field result each binary operation owes on known representatives.
pub open spec fn spec_value_fn(op: BinOp, x: int, y: int) -> int {
    match op {
        BinOp::Add => f_add(x, y),
        BinOp::Sub => f_sub(x, y),
        BinOp::Mul => f_mul(x, y),
        BinOp::Eq => if x == y {
            1int
        } else {
            0int
        },
    }
}

/// The concrete result of a binary operation, when both operands are known.
fn binary_value(a: &Value, b: &Value, op: BinOp) -> (r: Option<Fr>)
    ensures
        ({
            let owed = spec_known_both(
                *a,
                *b,
                match op {
                    BinOp::Add => |x: int, y: int| f_add(x, y),
                    BinOp::Sub => |x: int, y: int| f_sub(x, y),
                    BinOp::Mul => |x: int, y: int| f_mul(x, y),
                    BinOp::Eq => |x: int, y: int|
                        if x == y {
                            1int
                        } else {
                            0int
                        },
                },
            );
            match owed {
                Some(x) => r matches Some(c) && c.as_int() == x,
                None => r is None,
            }
        }),
{
    match (a.value(), b.value()) {
        (Some(x), Some(y)) => match op {
            BinOp::Add => Some(x.add(y)),
            BinOp::Sub => Some(x.sub(y)),
            BinOp::Mul => Some(x.mul(y)),
            BinOp::Eq => {
                proof {
                    Fr::lemma_canonical(x, y);
                }
                if x == y {
                    Some(Fr::one())
                } else {
                    Some(Fr::zero())
                }
            },
        },
        _ => None,
    }
}

/// The executable linear combination of a value.
fn lc_of(v: &Value) -> (r: Vec<Term>)
    ensures
        r@ == spec_lc_of(*v),
{
    let mut r: Vec<Term> = Vec::new();
    match v {
        Value::Invalid => {},
        Value::Constant(c) => {
            r.push(Term { coeff: c.value, var: LcVar::One });
        },
        Value::Variable(fv) => {
            match fv.cell {
                Some(cell) => {
                    r.push(Term { coeff: Fr::one(), var: LcVar::Wire(cell.index) });
                },
                None => {},
            }
        },
    }
    proof {
        assert(r@ =~= spec_lc_of(*v));
    }
    r
}

/// Append `y` to `x`.
fn lc_concat(x: Vec<Term>, y: &Vec<Term>) -> (r: Vec<Term>)
    ensures
        r@ == x@ + y@,
{
    let mut r = x;
    let mut i: usize = 0;
    while i < y.len()
        invariant
            i <= y@.len(),
            r@ == x@ + y@.subrange(0, i as int),
        decreases y@.len() - i,
    {
        r.push(y[i]);
        proof {
            assert(r@ =~= x@ + y@.subrange(0, i + 1 as int));
        }
        i = i + 1;
    }
    proof {
        assert(y@.subrange(0, y@.len() as int) =~= y@);
    }
    r
}

/// Negate every coefficient of `lc`.
fn lc_neg(lc: &Vec<Term>) -> (r: Vec<Term>)
    ensures
        is_neg_of(r@, lc@),
{
    let mut r: Vec<Term> = Vec::new();
    let mut i: usize = 0;
    while i < lc.len()
        invariant
            i <= lc@.len(),
            r@.len() == i,
            forall|j: int|
                0 <= j < i ==> (#[trigger] r@[j]).var == lc@[j].var && r@[j].coeff.as_int() == f_sub(
                    0,
                    lc@[j].coeff.as_int(),
                ),
        decreases lc@.len() - i,
    {
        let t = lc[i];
        r.push(Term { coeff: t.coeff.neg(), var: t.var });
        i = i + 1;
    }
    r
}

/// The linear combination with a single coefficient-one term.
fn unit_lc(var: LcVar) -> (r: Vec<Term>)
    ensures
        r@.len() == 1,
        is_unit_term(r@[0], var),
{
    let mut r: Vec<Term> = Vec::new();
    r.push(Term { coeff: Fr::one(), var });
    r
}

} // verus!
