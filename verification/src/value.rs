//! The tagged representation of a circuit quantity.
//!
//! A `Value` is either unset (`Invalid`), a compile-time constant, or a
//! circuit wire ("variable") whose concrete value may or may not be known
//! yet.  A value's concrete part being absent is what drives the
//! structure-building regime of the interpreter.

use vstd::prelude::*;

use crate::errors::VmResult;
use crate::field::Fr;

verus! {

/// The guest type tag carried by every live value.
#[derive(Clone, Copy, Debug, PartialEq, Eq, Structural)]
pub enum MoveValueType {
    Bool,
    U8,
    U64,
    U128,
}

/// A handle to a wire of the constraint system.
#[derive(Clone, Copy, Debug, PartialEq, Eq, Structural)]
pub struct Cell {
    pub index: usize,
}

/// A value known at circuit-build time.
#[derive(Clone, Copy, Debug)]
pub struct FConstant {
    pub value: Fr,
    pub cell: Option<Cell>,
    pub ty: MoveValueType,
}

/// A circuit wire; `value` is absent exactly when the witness for it is not
/// yet available.
#[derive(Clone, Copy, Debug)]
pub struct FVariable {
    pub value: Option<Fr>,
    pub cell: Option<Cell>,
    pub ty: MoveValueType,
}

/// A circuit quantity: unset, a constant, or a wire.
#[derive(Clone, Copy, Debug)]
pub enum Value {
    Invalid,
    Constant(FConstant),
    Variable(FVariable),
}

/// Every value of the sequence is live, i.e. not `Invalid`.  The
/// interpreter's handlers only ever push live values, so this is an
/// invariant of the evaluation stack across block execution.
pub open spec fn all_live(s: Seq<Value>) -> bool {
    forall|i: int| 0 <= i < s.len() ==> !((#[trigger] s[i]) is Invalid)
}

impl Value {
    /// The concrete field value, if known.
    pub open spec fn spec_value(self) -> Option<Fr> {
        match self {
            Value::Invalid => None,
            Value::Constant(c) => Some(c.value),
            Value::Variable(v) => v.value,
        }
    }

    /// The wire handle, if the value has been bound to one.
    pub open spec fn spec_cell(self) -> Option<Cell> {
        match self {
            Value::Invalid => None,
            Value::Constant(c) => c.cell,
            Value::Variable(v) => v.cell,
        }
    }

    /// The guest type tag; meaningful only for live values.
    pub open spec fn spec_ty(self) -> MoveValueType {
        match self {
            Value::Invalid => arbitrary(),
            Value::Constant(c) => c.ty,
            Value::Variable(v) => v.ty,
        }
    }

    /// Whether the concrete field value is known.
    pub open spec fn is_known(self) -> bool {
        self.spec_value() is Some
    }

    pub fn new_variable(value: Option<Fr>, cell: Option<Cell>, ty: MoveValueType) -> (r: VmResult<
        Self,
    >)
        ensures
            r matches Ok(v) && v == (Value::Variable(FVariable { value, cell, ty })),
    {
        Ok(Value::Variable(FVariable { value, cell, ty }))
    }

    pub fn new_constant(value: Fr, cell: Option<Cell>, ty: MoveValueType) -> (r: VmResult<Self>)
        ensures
            r matches Ok(v) && v == (Value::Constant(FConstant { value, cell, ty })),
    {
        Ok(Value::Constant(FConstant { value, cell, ty }))
    }

    /// A boolean literal: the constants one and zero stand for true and false.
    pub fn bool(x: bool, cell: Option<Cell>) -> (r: VmResult<Self>)
        ensures
            r matches Ok(v) && v matches Value::Constant(c) && c.cell == cell && c.ty
                == MoveValueType::Bool && c.value.as_int() == (if x {
                1int
            } else {
                0int
            }),
    {
        let value = if x {
            Fr::one()
        } else {
            Fr::zero()
        };
        Ok(Value::Constant(FConstant { value, cell, ty: MoveValueType::Bool }))
    }

    /// An 8-bit integer literal.
    pub fn u8(x: u8, cell: Option<Cell>) -> (r: VmResult<Self>)
        ensures
            r matches Ok(v) && v matches Value::Constant(c) && c.cell == cell && c.ty
                == MoveValueType::U8 && c.value.as_int() == x as int,
    {
        let value = Fr::from_u64(x as u64);
        Ok(Value::Constant(FConstant { value, cell, ty: MoveValueType::U8 }))
    }

    /// A 64-bit integer literal, reduced into the field.
    pub fn u64(x: u64, cell: Option<Cell>) -> (r: VmResult<Self>)
        ensures
            r matches Ok(v) && v matches Value::Constant(c) && c.cell == cell && c.ty
                == MoveValueType::U64 && c.value.as_int() == x as int % (
            crate::field::FIELD_MODULUS as int),
    {
        let value = Fr::from_u64(x);
        Ok(Value::Constant(FConstant { value, cell, ty: MoveValueType::U64 }))
    }

    /// A 128-bit integer literal, reduced into the field.
    pub fn u128(x: u128, cell: Option<Cell>) -> (r: VmResult<Self>)
        ensures
            r matches Ok(v) && v matches Value::Constant(c) && c.cell == cell && c.ty
                == MoveValueType::U128 && c.value.as_int() == x as int % (
            crate::field::FIELD_MODULUS as int),
    {
        let value = Fr::from_u128(x);
        Ok(Value::Constant(FConstant { value, cell, ty: MoveValueType::U128 }))
    }

    /// Whether this value is unset.
    pub fn is_invalid(&self) -> (b: bool)
        ensures
            b == (self is Invalid),
    {
        match self {
            Value::Invalid => true,
            _ => false,
        }
    }

    /// The known field element, if any.
    pub fn value(&self) -> (r: Option<Fr>)
        ensures
            r == self.spec_value(),
    {
        match self {
            Value::Invalid => None,
            Value::Constant(c) => Some(c.value),
            Value::Variable(v) => v.value,
        }
    }

    /// The wire handle, if the value has been bound to one.
    pub fn cell(&self) -> (r: Option<Cell>)
        ensures
            r == self.spec_cell(),
    {
        match self {
            Value::Invalid => None,
            Value::Constant(c) => c.cell,
            Value::Variable(v) => v.cell,
        }
    }

    /// The guest type tag; must not be asked of an unset value.
    pub fn ty(&self) -> (r: MoveValueType)
        requires
            !(self is Invalid),
        ensures
            r == self.spec_ty(),
    {
        match self {
            Value::Invalid => unreached(),
            Value::Constant(c) => c.ty,
            Value::Variable(v) => v.ty,
        }
    }
}

} // verus!
