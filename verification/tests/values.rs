use zkvm::field::{Fr, FIELD_MODULUS};
use zkvm::value::{Cell, MoveValueType, Value};

#[test]
fn literal_constructors_tag_the_guest_type() {
    let v = Value::bool(true, None).unwrap();
    assert_eq!(v.value().unwrap().as_u128(), 1);
    assert_eq!(v.ty(), MoveValueType::Bool);
    let v = Value::bool(false, None).unwrap();
    assert_eq!(v.value().unwrap().as_u128(), 0);
    let v = Value::u8(255, None).unwrap();
    assert_eq!(v.value().unwrap().as_u128(), 255);
    assert_eq!(v.ty(), MoveValueType::U8);
    let v = Value::u64(u64::MAX, None).unwrap();
    assert_eq!(v.value().unwrap().as_u128(), (u64::MAX % FIELD_MODULUS) as u128);
    assert_eq!(v.ty(), MoveValueType::U64);
    let v = Value::u128(1 << 100, None).unwrap();
    assert_eq!(v.value().unwrap().as_u128() as u128, ((1u128 << 100) % FIELD_MODULUS as u128));
    assert_eq!(v.ty(), MoveValueType::U128);
}

#[test]
fn variables_report_their_knownness_and_cell() {
    let cell = Some(Cell { index: 3 });
    let v = Value::new_variable(Some(Fr::from_u64(9)), cell, MoveValueType::U64).unwrap();
    assert_eq!(v.value().unwrap().as_u128(), 9);
    assert_eq!(v.cell().unwrap().index, 3);
    assert!(!v.is_invalid());
    let v = Value::new_variable(None, None, MoveValueType::U64).unwrap();
    assert!(v.value().is_none());
    assert!(v.cell().is_none());
}

#[test]
fn constants_carry_their_cell() {
    let v = Value::new_constant(Fr::from_u64(4), Some(Cell { index: 7 }), MoveValueType::U8)
        .unwrap();
    assert_eq!(v.value().unwrap().as_u128(), 4);
    assert_eq!(v.cell().unwrap().index, 7);
    assert_eq!(v.ty(), MoveValueType::U8);
}

#[test]
fn invalid_values_have_no_value_and_no_cell() {
    let v = Value::Invalid;
    assert!(v.is_invalid());
    assert!(v.value().is_none());
    assert!(v.cell().is_none());
}
