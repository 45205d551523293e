use rlox::chunk::{Chunk, OpCode};
use rlox::vm::{BinaryOp, FaultKind, InterpretResult, Step, VM};

/// Drives the machine to its first halt or fault, computing the IEEE-754
/// arithmetic the library asks for along the way.
fn run_to_end(vm: &mut VM, chunk: &Chunk) -> Step {
    loop {
        match vm.step(chunk) {
            Step::Pushed => continue,
            Step::Arithmetic { op, a, b } => {
                let x = f64::from_bits(a);
                let y = f64::from_bits(b);
                let r = match op {
                    BinaryOp::Add => x + y,
                    BinaryOp::Subtract => x - y,
                    BinaryOp::Multiply => x * y,
                    BinaryOp::Divide => x / y,
                };
                vm.push(r.to_bits());
            }
            Step::Negation { v } => {
                vm.push((-f64::from_bits(v)).to_bits());
            }
            other => return other,
        }
    }
}

fn push_constant(chunk: &mut Chunk, value: f64, line: usize) {
    let index = chunk.add_constants(value.to_bits()).unwrap();
    chunk.write_opcode(OpCode::Constant, line);
    chunk.write(index, line);
}

#[test]
fn end_to_end_arithmetic() {
    let mut chunk = Chunk::new();
    push_constant(&mut chunk, 1.2, 1);
    push_constant(&mut chunk, 3.4, 1);
    chunk.write_opcode(OpCode::Add, 1);
    push_constant(&mut chunk, 5.6, 1);
    chunk.write_opcode(OpCode::Divide, 1);
    chunk.write_opcode(OpCode::Negate, 1);
    chunk.write_opcode(OpCode::Return, 2);
    let mut vm = VM::new();
    match run_to_end(&mut vm, &chunk) {
        Step::Halt { result: Some(bits) } => {
            let value = f64::from_bits(bits);
            assert_eq!(value, -((1.2 + 3.4) / 5.6));
            assert!((value - (-0.8214285714285714)).abs() < 1e-15);
        }
        other => panic!("expected a result, got {:?}", other),
    }
    assert_eq!(vm.stack_len(), 0);
}

#[test]
fn return_on_empty_stack_halts_without_a_result() {
    // Pinned behavior: `Return` reports the popped top of stack when there
    // is one, and a plain successful halt when the stack is empty.
    let mut chunk = Chunk::new();
    chunk.write_opcode(OpCode::Return, 1);
    let mut vm = VM::new();
    assert_eq!(run_to_end(&mut vm, &chunk), Step::Halt { result: None });
    assert_eq!(vm.stack_len(), 0);
}

#[test]
fn subtract_and_multiply_order_operands_left_to_right() {
    for (op, expected) in [(OpCode::Subtract, 3.0), (OpCode::Multiply, 10.0)] {
        let mut chunk = Chunk::new();
        push_constant(&mut chunk, 5.0, 1);
        push_constant(&mut chunk, 2.0, 1);
        chunk.write_opcode(op, 1);
        chunk.write_opcode(OpCode::Return, 1);
        let mut vm = VM::new();
        match run_to_end(&mut vm, &chunk) {
            Step::Halt { result: Some(bits) } => assert_eq!(f64::from_bits(bits), expected),
            other => panic!("expected a result, got {:?}", other),
        }
    }
}

#[test]
fn division_by_zero_follows_ieee_semantics() {
    let mut chunk = Chunk::new();
    push_constant(&mut chunk, 1.0, 1);
    push_constant(&mut chunk, 0.0, 1);
    chunk.write_opcode(OpCode::Divide, 1);
    chunk.write_opcode(OpCode::Return, 1);
    let mut vm = VM::new();
    match run_to_end(&mut vm, &chunk) {
        Step::Halt { result: Some(bits) } => {
            assert!(f64::from_bits(bits).is_infinite());
        }
        other => panic!("expected a result, got {:?}", other),
    }
}

#[test]
fn negate_on_empty_stack_faults() {
    let mut chunk = Chunk::new();
    chunk.write_opcode(OpCode::Negate, 3);
    let mut vm = VM::new();
    assert_eq!(
        run_to_end(&mut vm, &chunk),
        Step::Fault { kind: FaultKind::StackUnderflow, line: Some(3) }
    );
}

#[test]
fn binary_op_with_one_operand_faults() {
    let mut chunk = Chunk::new();
    push_constant(&mut chunk, 1.0, 1);
    chunk.write_opcode(OpCode::Add, 2);
    let mut vm = VM::new();
    assert_eq!(
        run_to_end(&mut vm, &chunk),
        Step::Fault { kind: FaultKind::StackUnderflow, line: Some(2) }
    );
}

#[test]
fn unknown_opcode_faults() {
    let mut chunk = Chunk::new();
    chunk.write(9, 4);
    let mut vm = VM::new();
    assert_eq!(
        run_to_end(&mut vm, &chunk),
        Step::Fault { kind: FaultKind::UnknownOpcode, line: Some(4) }
    );
}

#[test]
fn running_off_the_end_faults() {
    let chunk = Chunk::new();
    let mut vm = VM::new();
    assert_eq!(run_to_end(&mut vm, &chunk), Step::Fault { kind: FaultKind::EndOfCode, line: None });
}

#[test]
fn constant_with_missing_operand_faults() {
    let mut chunk = Chunk::new();
    chunk.write_opcode(OpCode::Constant, 6);
    let mut vm = VM::new();
    assert_eq!(
        run_to_end(&mut vm, &chunk),
        Step::Fault { kind: FaultKind::EndOfCode, line: Some(6) }
    );
}

#[test]
fn constant_index_past_the_pool_faults() {
    let mut chunk = Chunk::new();
    chunk.write_opcode(OpCode::Constant, 7);
    chunk.write(0, 7);
    let mut vm = VM::new();
    assert_eq!(
        run_to_end(&mut vm, &chunk),
        Step::Fault { kind: FaultKind::InvalidConstant, line: Some(7) }
    );
}

#[test]
fn reset_and_free_clear_the_machine() {
    let mut chunk = Chunk::new();
    push_constant(&mut chunk, 1.0, 1);
    let mut vm = VM::new();
    assert_eq!(vm.step(&chunk), Step::Pushed);
    assert_eq!(vm.stack_len(), 1);
    vm.reset();
    assert_eq!(vm.stack_len(), 0);
    assert_eq!(vm.step(&chunk), Step::Pushed);
    vm.free();
    assert_eq!(vm.stack_len(), 0);
}

#[test]
fn interpret_reports_lexical_errors() {
    let mut vm = VM::new();
    assert_eq!(vm.interpret(&String::from("1 + 2")), InterpretResult::Success);
    assert_eq!(vm.interpret(&String::from("\"abc")), InterpretResult::CompileError);
    assert_eq!(vm.interpret(&String::from("")), InterpretResult::Success);
}
