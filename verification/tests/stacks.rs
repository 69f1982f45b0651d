use zkvm::bytecode::{Bytecode, Function};
use zkvm::errors::StatusCode;
use zkvm::frame::{Frame, Locals};
use zkvm::stack::{CallStack, EvalStack};
use zkvm::value::Value;

fn val(x: u64) -> Value {
    Value::u64(x, None).unwrap()
}

#[test]
fn eval_stack_pops_in_reverse_order() {
    let mut s = EvalStack::new();
    for i in 0..256u64 {
        assert!(s.push(val(i)).is_ok());
    }
    for i in (0..256u64).rev() {
        let v = s.pop().unwrap();
        assert_eq!(v.value().unwrap().as_u128(), i as u128);
    }
}

#[test]
fn eval_stack_overflow_at_bound() {
    let mut s = EvalStack::new();
    for i in 0..256u64 {
        assert!(s.push(val(i)).is_ok());
    }
    let e = s.push(val(999)).unwrap_err();
    assert_eq!(e.status, StatusCode::StackOverflow);
    assert_eq!(s.len(), 256);
}

#[test]
fn eval_stack_underflow_when_empty() {
    let mut s = EvalStack::new();
    let e = s.pop().unwrap_err();
    assert_eq!(e.status, StatusCode::StackUnderflow);
    s.push(val(1)).unwrap();
    s.pop().unwrap();
    let e = s.pop().unwrap_err();
    assert_eq!(e.status, StatusCode::StackUnderflow);
}

#[test]
fn eval_stack_top_peeks_without_consuming() {
    let mut s = EvalStack::new();
    assert!(s.top().is_none());
    s.push(val(7)).unwrap();
    s.push(val(9)).unwrap();
    assert_eq!(s.top().unwrap().value().unwrap().as_u128(), 9);
    assert_eq!(s.len(), 2);
}

fn tiny_frame(marker: u64) -> Frame {
    let function = Function::new(vec![Bytecode::LdU64(marker), Bytecode::Ret]);
    Frame::new(0, 0, None, function, Locals::new(0))
}

#[test]
fn call_stack_is_lifo() {
    let mut s = CallStack::new();
    assert!(s.top().is_none());
    s.push(tiny_frame(1)).unwrap();
    s.push(tiny_frame(2)).unwrap();
    assert_eq!(s.len(), 2);
    let f = s.pop().unwrap();
    assert!(matches!(f.function.code[0], Bytecode::LdU64(2)));
    let f = s.pop().unwrap();
    assert!(matches!(f.function.code[0], Bytecode::LdU64(1)));
    let e = match s.pop() {
        Err(e) => e,
        Ok(_) => panic!("pop of an empty call stack must fail"),
    };
    assert_eq!(e.status, StatusCode::StackUnderflow);
}
