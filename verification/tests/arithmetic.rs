use zkvm::bytecodes::{Add, LdU8};
use zkvm::circuit::EvaluationChip;
use zkvm::errors::StatusCode;
use zkvm::field::{Fr, FIELD_MODULUS};
use zkvm::stack::EvalStack;
use zkvm::value::{MoveValueType, Value};

fn known(x: u64) -> Value {
    Value::u64(x, None).unwrap()
}

fn unknown() -> Value {
    Value::new_variable(None, None, MoveValueType::U64).unwrap()
}

#[test]
fn field_arithmetic_exact_values() {
    let a = Fr::from_u64(7);
    let b = Fr::from_u64(5);
    assert_eq!(a.add(b).as_u128(), 12);
    assert_eq!(a.sub(b).as_u128(), 2);
    assert_eq!(a.mul(b).as_u128(), 35);
    assert_eq!(b.sub(a).as_u128(), (FIELD_MODULUS - 2) as u128);
    assert_eq!(Fr::from_u64(FIELD_MODULUS).as_u128(), 0);
    let big = Fr::from_u64(FIELD_MODULUS - 1);
    assert_eq!(big.add(Fr::from_u64(2)).as_u128(), 1);
    assert_eq!(Fr::from_u128((FIELD_MODULUS as u128) + 3).as_u128(), 3);
    assert_eq!(Fr::zero().sub(Fr::one()).as_u128(), (FIELD_MODULUS - 1) as u128);
}

#[test]
fn add_on_known_operands_yields_known_sum_and_one_constraint() {
    let mut chip = EvaluationChip::new();
    let a = known(2);
    let b = known(3);
    let c = chip.add(&a, &b, None).unwrap();
    assert_eq!(c.value().unwrap().as_u128(), 5);
    assert_eq!(c.ty(), MoveValueType::U64);
    assert!(c.cell().is_some());
    assert_eq!(chip.constraints.len(), 1);
}

#[test]
fn sub_and_mul_on_known_operands() {
    let mut chip = EvaluationChip::new();
    let c = chip.sub(&known(9), &known(4), None).unwrap();
    assert_eq!(c.value().unwrap().as_u128(), 5);
    assert_eq!(chip.constraints.len(), 1);
    let c = chip.mul(&known(9), &known(4), None).unwrap();
    assert_eq!(c.value().unwrap().as_u128(), 36);
    assert_eq!(chip.constraints.len(), 2);
}

#[test]
fn eq_on_known_operands_yields_boolean_indicator() {
    let mut chip = EvaluationChip::new();
    let c = chip.eq(&known(5), &known(5), None).unwrap();
    assert_eq!(c.value().unwrap().as_u128(), 1);
    assert_eq!(c.ty(), MoveValueType::Bool);
    let c = chip.eq(&known(5), &known(6), None).unwrap();
    assert_eq!(c.value().unwrap().as_u128(), 0);
    assert_eq!(chip.constraints.len(), 2);
}

#[test]
fn unknown_operand_yields_unknown_result_but_same_structure() {
    let mut chip = EvaluationChip::new();
    let c = chip.add(&known(2), &unknown(), None).unwrap();
    assert!(c.value().is_none());
    assert!(c.cell().is_some());
    assert_eq!(chip.constraints.len(), 1);
    let c = chip.sub(&unknown(), &known(2), None).unwrap();
    assert!(c.value().is_none());
    assert_eq!(chip.constraints.len(), 2);
    let c = chip.mul(&unknown(), &unknown(), None).unwrap();
    assert!(c.value().is_none());
    assert_eq!(chip.constraints.len(), 3);
    let c = chip.eq(&unknown(), &known(2), None).unwrap();
    assert!(c.value().is_none());
    assert_eq!(chip.constraints.len(), 4);
}

#[test]
fn load_constant_allocates_a_wire_without_a_gate() {
    let mut chip = EvaluationChip::new();
    let v = chip.load_constant(Fr::from_u64(8), MoveValueType::U8);
    assert_eq!(v.value().unwrap().as_u128(), 8);
    assert_eq!(v.ty(), MoveValueType::U8);
    assert_eq!(v.cell().unwrap().index, 0);
    assert_eq!(chip.wire_values.len(), 1);
    assert_eq!(chip.constraints.len(), 0);
}

#[test]
fn add_instruction_replaces_operands_by_their_sum() {
    let mut stack = EvalStack::new();
    let mut chip = EvaluationChip::new();
    stack.push(known(11)).unwrap();
    stack.push(known(31)).unwrap();
    Add.execute(&mut stack, &mut chip).unwrap();
    assert_eq!(stack.len(), 1);
    assert_eq!(chip.constraints.len(), 1);
    let v = stack.pop().unwrap();
    assert_eq!(v.value().unwrap().as_u128(), 42);
}

#[test]
fn add_instruction_underflows_on_short_stack() {
    let mut stack = EvalStack::new();
    let mut chip = EvaluationChip::new();
    stack.push(known(1)).unwrap();
    let e = Add.execute(&mut stack, &mut chip).unwrap_err();
    assert_eq!(e.status, StatusCode::StackUnderflow);
    // The failed run recorded nothing and consumed the one operand.
    assert_eq!(chip.constraints.len(), 0);
    assert_eq!(chip.wire_values.len(), 0);
    assert_eq!(stack.len(), 0);
    let e = Add.execute(&mut stack, &mut chip).unwrap_err();
    assert_eq!(e.status, StatusCode::StackUnderflow);
    assert_eq!(chip.constraints.len(), 0);
}

#[test]
fn ldu8_instruction_pushes_the_literal() {
    let mut stack = EvalStack::new();
    let mut chip = EvaluationChip::new();
    LdU8(200).execute(&mut stack, &mut chip).unwrap();
    let v = stack.pop().unwrap();
    assert_eq!(v.value().unwrap().as_u128(), 200);
    assert_eq!(v.ty(), MoveValueType::U8);
    assert_eq!(chip.constraints.len(), 0);
    assert_eq!(chip.wire_values.len(), 1);
}
