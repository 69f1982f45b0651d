use zkvm::errors::StatusCode;
use zkvm::frame::Locals;
use zkvm::value::Value;

fn val(x: u64) -> Value {
    Value::u64(x, None).unwrap()
}

#[test]
fn fresh_locals_refuse_copy() {
    let locals = Locals::new(4);
    for i in 0..4usize {
        let e = locals.copy(i).unwrap_err();
        assert_eq!(e.status, StatusCode::CopyLocalError);
    }
}

#[test]
fn store_then_copy_returns_stored_value() {
    let mut locals = Locals::new(2);
    locals.store(1, val(42)).unwrap();
    let v = locals.copy(1).unwrap();
    assert_eq!(v.value().unwrap().as_u128(), 42);
    // Copying does not consume the slot.
    let v = locals.copy(1).unwrap();
    assert_eq!(v.value().unwrap().as_u128(), 42);
}

#[test]
fn move_empties_the_slot() {
    let mut locals = Locals::new(1);
    locals.store(0, val(5)).unwrap();
    let v = locals.move_(0).unwrap();
    assert_eq!(v.value().unwrap().as_u128(), 5);
    let e = locals.copy(0).unwrap_err();
    assert_eq!(e.status, StatusCode::CopyLocalError);
    let e = locals.move_(0).unwrap_err();
    assert_eq!(e.status, StatusCode::MoveLocalError);
}

#[test]
fn out_of_range_index_is_always_an_error() {
    let mut locals = Locals::new(3);
    assert_eq!(locals.copy(3).unwrap_err().status, StatusCode::OutOfBounds);
    assert_eq!(
        locals.store(3, val(1)).unwrap_err().status,
        StatusCode::OutOfBounds
    );
    assert_eq!(locals.move_(3).unwrap_err().status, StatusCode::OutOfBounds);
    assert_eq!(locals.copy(100).unwrap_err().status, StatusCode::OutOfBounds);
}

#[test]
fn store_overwrites_an_occupied_slot() {
    let mut locals = Locals::new(1);
    locals.store(0, val(1)).unwrap();
    locals.store(0, val(2)).unwrap();
    assert_eq!(locals.copy(0).unwrap().value().unwrap().as_u128(), 2);
}
