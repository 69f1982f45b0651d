use zkvm::bytecode::{Bytecode, Function};
use zkvm::circuit::EvaluationChip;
use zkvm::errors::StatusCode;
use zkvm::frame::{Block, ExitStatus, Frame, Locals, ProgramBlock};
use zkvm::interpreter::Interpreter;
use zkvm::value::{MoveValueType, Value};

fn unknown_bool() -> Value {
    Value::new_variable(None, None, MoveValueType::Bool).unwrap()
}

fn run_frame(code: Vec<Bytecode>, locals_count: usize, interp: &mut Interpreter, chip: &mut EvaluationChip) -> (Frame, Result<ExitStatus, zkvm::errors::RuntimeError>) {
    let function = Function::new(code);
    let mut frame = Frame::new(0, 0, None, function, Locals::new(locals_count));
    let r = frame.execute(interp, chip);
    (frame, r)
}

#[test]
fn known_true_condition_jumps_in_place() {
    let mut interp = Interpreter::new();
    let mut chip = EvaluationChip::new();
    // if true: skip the abort.
    let code = vec![
        Bytecode::LdTrue,
        Bytecode::BrTrue(3),
        Bytecode::Abort,
        Bytecode::Ret,
    ];
    let (frame, r) = run_frame(code, 0, &mut interp, &mut chip);
    assert_eq!(r.unwrap(), ExitStatus::Return);
    // No conditional construct was ever materialized.
    assert_eq!(frame.blocks.len(), 0);
    assert!(matches!(frame.current_block, ProgramBlock::Block(_)));
}

#[test]
fn known_false_condition_falls_through() {
    let mut interp = Interpreter::new();
    let mut chip = EvaluationChip::new();
    let code = vec![
        Bytecode::LdFalse,
        Bytecode::BrTrue(3),
        Bytecode::Ret,
        Bytecode::Abort,
    ];
    let (frame, r) = run_frame(code, 0, &mut interp, &mut chip);
    assert_eq!(r.unwrap(), ExitStatus::Return);
    assert_eq!(frame.blocks.len(), 0);
}

#[test]
fn unknown_condition_exits_at_the_branch_position() {
    let mut interp = Interpreter::new();
    let mut chip = EvaluationChip::new();
    interp.stack.push(unknown_bool()).unwrap();
    let code = vec![
        Bytecode::BrTrue(2),
        Bytecode::Branch(3),
        Bytecode::Ret,
        Bytecode::Ret,
    ];
    let mut locals = Locals::new(0);
    let mut block = Block::new(0, 0, None, code);
    let r = block.execute(&mut locals, &mut interp, &mut chip).unwrap();
    assert_eq!(r, ExitStatus::ConditionalBranch(0));
}

#[test]
fn if_else_runs_both_arms_and_merges_past_the_merge_point() {
    let mut interp = Interpreter::new();
    let mut chip = EvaluationChip::new();
    interp.stack.push(unknown_bool()).unwrap();
    // if cond { local0 = 1 + 2 } else { local0 = 3 + 4 }
    let code = vec![
        Bytecode::BrTrue(2),
        Bytecode::Branch(7),
        Bytecode::LdU8(1),
        Bytecode::LdU8(2),
        Bytecode::Add,
        Bytecode::StLoc(0),
        Bytecode::Branch(11),
        Bytecode::LdU8(3),
        Bytecode::LdU8(4),
        Bytecode::Add,
        Bytecode::StLoc(0),
        Bytecode::Ret,
    ];
    let (frame, r) = run_frame(code, 1, &mut interp, &mut chip);
    // Reaching the return shows the frame resumed at merge + 1.
    assert_eq!(r.unwrap(), ExitStatus::Return);
    // The suspend stack was fully unwound.
    assert_eq!(frame.blocks.len(), 0);
    // Both arms' constraints are present: one gate per Add.
    assert_eq!(chip.constraints.len(), 2);
    // One store effect is active per local: the arm executed last wins.
    let v = frame.locals.copy(0).unwrap();
    assert_eq!(v.value().unwrap().as_u128(), 7);
    // The evaluation stack is balanced again.
    assert_eq!(interp.stack.len(), 0);
}

#[test]
fn true_arm_only_store_survives_the_merge() {
    let mut interp = Interpreter::new();
    let mut chip = EvaluationChip::new();
    interp.stack.push(unknown_bool()).unwrap();
    // if cond { local0 = 9 } else { local1 = 8 }
    let code = vec![
        Bytecode::BrTrue(2),
        Bytecode::Branch(5),
        Bytecode::LdU8(9),
        Bytecode::StLoc(0),
        Bytecode::Branch(7),
        Bytecode::LdU8(8),
        Bytecode::StLoc(1),
        Bytecode::Ret,
    ];
    let (frame, r) = run_frame(code, 2, &mut interp, &mut chip);
    assert_eq!(r.unwrap(), ExitStatus::Return);
    // Both arms observed and mutated the same locals table.
    assert_eq!(frame.locals.copy(0).unwrap().value().unwrap().as_u128(), 9);
    assert_eq!(frame.locals.copy(1).unwrap().value().unwrap().as_u128(), 8);
}

#[test]
fn malformed_pattern_fails_without_touching_the_suspend_stack() {
    let mut interp = Interpreter::new();
    let mut chip = EvaluationChip::new();
    interp.stack.push(unknown_bool()).unwrap();
    // BrTrue not followed by an unconditional Branch.
    let code = vec![Bytecode::BrTrue(2), Bytecode::LdU8(1), Bytecode::Ret];
    let (frame, r) = run_frame(code, 0, &mut interp, &mut chip);
    let e = r.unwrap_err();
    assert_eq!(e.status, StatusCode::ProgramBlockError);
    assert_eq!(frame.blocks.len(), 0);
}

#[test]
fn prepare_conditional_block_rejects_malformed_shapes() {
    let function = Function::new(vec![Bytecode::BrTrue(2), Bytecode::LdU8(1), Bytecode::Ret]);
    let frame = Frame::new(0, 0, None, function, Locals::new(0));
    let e = frame.prepare_conditional_block(0).unwrap_err();
    assert_eq!(e.status, StatusCode::ProgramBlockError);

    // The scanned instruction must be a conditional branch.
    let function = Function::new(vec![Bytecode::Ret, Bytecode::Branch(0)]);
    let frame = Frame::new(0, 0, None, function, Locals::new(0));
    let e = frame.prepare_conditional_block(0).unwrap_err();
    assert_eq!(e.status, StatusCode::ProgramBlockError);

    // Out-of-range positions are structural errors, not panics.
    let function = Function::new(vec![Bytecode::Ret]);
    let frame = Frame::new(0, 0, None, function, Locals::new(0));
    let e = frame.prepare_conditional_block(5).unwrap_err();
    assert_eq!(e.status, StatusCode::ProgramBlockError);
}

#[test]
fn abort_with_known_value_carries_its_code() {
    let mut interp = Interpreter::new();
    let mut chip = EvaluationChip::new();
    let code = vec![Bytecode::LdU64(7777), Bytecode::Abort];
    let (_frame, r) = run_frame(code, 0, &mut interp, &mut chip);
    let e = r.unwrap_err();
    assert_eq!(e.status, StatusCode::MoveAbort(7777));
}

#[test]
fn abort_with_unknown_value_is_a_conversion_error() {
    let mut interp = Interpreter::new();
    let mut chip = EvaluationChip::new();
    interp.stack.push(unknown_bool()).unwrap();
    let code = vec![Bytecode::Abort, Bytecode::Ret];
    let (_frame, r) = run_frame(code, 0, &mut interp, &mut chip);
    let e = r.unwrap_err();
    assert_eq!(e.status, StatusCode::ValueConversionError);
}

#[test]
fn witness_mode_end_to_end_two_plus_three() {
    let mut interp = Interpreter::new();
    let mut chip = EvaluationChip::new();
    let code = vec![
        Bytecode::LdU8(2),
        Bytecode::LdU8(3),
        Bytecode::Add,
        Bytecode::Ret,
    ];
    let (_frame, r) = run_frame(code, 0, &mut interp, &mut chip);
    assert_eq!(r.unwrap(), ExitStatus::Return);
    assert_eq!(interp.stack.len(), 1);
    let v = interp.stack.pop().unwrap();
    assert_eq!(v.value().unwrap().as_u128(), 5);
    assert_eq!(chip.constraints.len(), 1);
}

#[test]
fn unconditional_branch_continues_in_the_same_block() {
    let mut interp = Interpreter::new();
    let mut chip = EvaluationChip::new();
    let code = vec![
        Bytecode::Branch(2),
        Bytecode::Abort,
        Bytecode::LdU8(1),
        Bytecode::Ret,
    ];
    let (frame, r) = run_frame(code, 0, &mut interp, &mut chip);
    assert_eq!(r.unwrap(), ExitStatus::Return);
    assert!(matches!(frame.current_block, ProgramBlock::Block(_)));
    assert_eq!(interp.stack.len(), 1);
}

#[test]
fn nested_conditionals_merge_inside_out() {
    let mut interp = Interpreter::new();
    let mut chip = EvaluationChip::new();
    // Conditions are popped innermost last: the outer branch runs first.
    interp.stack.push(unknown_bool()).unwrap();
    interp.stack.push(unknown_bool()).unwrap();
    // if outer { if inner { l0 = 1 } else { l0 = 2 }; l1 = 3 } else { l1 = 4 }
    let code = vec![
        Bytecode::BrTrue(2),
        Bytecode::Branch(12),
        Bytecode::BrTrue(4),
        Bytecode::Branch(7),
        Bytecode::LdU8(1),
        Bytecode::StLoc(0),
        Bytecode::Branch(9),
        Bytecode::LdU8(2),
        Bytecode::StLoc(0),
        Bytecode::LdU8(3),
        Bytecode::StLoc(1),
        Bytecode::Branch(14),
        Bytecode::LdU8(4),
        Bytecode::StLoc(1),
        Bytecode::Ret,
    ];
    let (frame, r) = run_frame(code, 2, &mut interp, &mut chip);
    assert_eq!(r.unwrap(), ExitStatus::Return);
    assert_eq!(frame.blocks.len(), 0);
    assert_eq!(interp.stack.len(), 0);
    // All four arms ran; the last writer of each local wins.
    assert_eq!(frame.locals.copy(0).unwrap().value().unwrap().as_u128(), 2);
    assert_eq!(frame.locals.copy(1).unwrap().value().unwrap().as_u128(), 4);
}

#[test]
fn conditionals_nest_past_any_fixed_depth() {
    let mut interp = Interpreter::new();
    let mut chip = EvaluationChip::new();
    // Two hundred nested one-armed conditionals, all with unknown
    // conditions, each arm holding the next construct and one trailing
    // literal; every level must suspend, run its arm, and merge.
    let n: u16 = 200;
    let mut code = Vec::new();
    for i in 1..=n {
        code.push(Bytecode::BrTrue(2 * i));
        code.push(Bytecode::Branch(3 * n - i + 1));
    }
    code.push(Bytecode::LdU8(1));
    for _ in 1..n {
        code.push(Bytecode::LdU8(7));
    }
    code.push(Bytecode::Ret);
    for _ in 0..n {
        interp.stack.push(unknown_bool()).unwrap();
    }
    let (frame, r) = run_frame(code, 0, &mut interp, &mut chip);
    assert_eq!(r.unwrap(), ExitStatus::Return);
    assert_eq!(frame.blocks.len(), 0);
    // Every condition was consumed and every arm's literal was pushed.
    assert_eq!(interp.stack.len(), n as usize);
    assert_eq!(chip.constraints.len(), 0);
}

#[test]
fn program_block_tracks_the_running_arm() {
    let code = vec![Bytecode::Ret, Bytecode::Ret, Bytecode::Ret];
    let mut pb = ProgramBlock::new_block(0, 0, None, code.clone());
    assert_eq!(pb.pc(), 0);
    pb.add_pc();
    assert_eq!(pb.pc(), 1);
    pb.set_pc(2);
    assert_eq!(pb.pc(), 2);

    let true_arm = Block::new(1, 1, Some(1), code.clone());
    let false_arm = Block::new(2, 2, Some(2), code.clone());
    let mut pb = ProgramBlock::new_conditional_block(Some(true_arm), Some(false_arm));
    // The true arm starts as the running one.
    assert_eq!(pb.pc(), 1);
    pb.set_pc(0);
    assert_eq!(pb.pc(), 0);
    match &pb {
        ProgramBlock::ConditionalBlock(cb) => {
            let running = cb.current_running().unwrap();
            assert_eq!(running.pc(), 0);
            assert_eq!(running.end(), Some(1));
        }
        ProgramBlock::Block(_) => panic!("expected a conditional construct"),
    }
}

#[test]
fn call_bubbles_up_with_its_index() {
    let mut interp = Interpreter::new();
    let mut chip = EvaluationChip::new();
    let code = vec![Bytecode::LdU8(1), Bytecode::Call(4), Bytecode::Ret];
    let (frame, r) = run_frame(code, 0, &mut interp, &mut chip);
    assert_eq!(r.unwrap(), ExitStatus::Call(4));
    // The frame stays positioned on the call instruction.
    assert_eq!(frame.current_block().pc(), 1);
    assert!(matches!(frame.func().code[1], Bytecode::Call(4)));
}

#[test]
fn branch_end_outside_a_conditional_is_fatal() {
    let mut interp = Interpreter::new();
    let mut chip = EvaluationChip::new();
    // A plain function body with an end boundary reports a branch end the
    // frame has no construct for: an internal invariant violation.
    let function = Function::new(vec![Bytecode::LdU8(1), Bytecode::Pop, Bytecode::Ret]);
    let mut frame = Frame::new(0, 0, Some(1), function, Locals::new(0));
    let e = frame.execute(&mut interp, &mut chip).unwrap_err();
    assert_eq!(e.status, StatusCode::ShouldNotReachHere);
}
