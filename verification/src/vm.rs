//! The virtual machine: a single-threaded stack machine that fetches,
//! decodes and executes a chunk's instruction stream.
//!
//! Verified code holds no floating-point arithmetic, so the machine runs as
//! an explicit transition system: each `step` call fetches and decodes one
//! instruction, performs every stack move itself, and, for the arithmetic
//! opcodes, hands the popped operand bits to the caller, who computes on
//! the decoded numbers and pushes the encoded result back with `push`. A
//! malformed instruction stream never aborts: it surfaces as a
//! [`Step::Fault`] carrying the kind of fault and the offending source
//! line.

use vstd::prelude::*;
use crate::chunk::{Chunk, ChunkView, OpCode, decode_opcode};
use crate::compiler::{Compiler, advance_spec};
use crate::value::Value;

verus! {

/// The overall outcome of one interpreter run: the unit ran to a `Return`,
/// failed to compile, or faulted at runtime.
#[derive(Debug, Clone, Copy, PartialEq, Eq, Structural)]
pub enum InterpretResult {
    Success,
    CompileError,
    RuntimeError,
}

/// The operator of a binary arithmetic instruction. Operands are pushed in
/// left-to-right evaluation order, so the right operand is popped first.
#[derive(Debug, Clone, Copy, PartialEq, Eq, Structural)]
pub enum BinaryOp {
    Add,
    Subtract,
    Multiply,
    Divide,
}

/// Why a run cannot go on.
#[derive(Debug, Clone, Copy, PartialEq, Eq, Structural)]
pub enum FaultKind {
    /// The instruction pointer reached the end of the code — or a
    /// `Constant` instruction's operand byte was missing — without a
    /// `Return` having ended the run.
    EndOfCode,
    /// The fetched byte encodes no opcode.
    UnknownOpcode,
    /// An instruction needed more operands than the stack holds.
    StackUnderflow,
    /// A `Constant` instruction's operand indexes past the constant pool.
    InvalidConstant,
}

/// What one execution step did, and what it asks of the caller.
#[derive(Debug, Clone, Copy, PartialEq, Eq)]
pub enum Step {
    /// A constant was pushed; nothing to do but step again.
    Pushed,
    /// Two operands were popped: compute `a op b` on the decoded numbers
    /// and hand the encoded result back with `push`.
    Arithmetic { op: BinaryOp, a: Value, b: Value },
    /// One operand was popped: compute its negation and `push` it back.
    Negation { v: Value },
    /// A `Return` ended the run: its result is the popped top of stack,
    /// or nothing when the stack was empty.
    Halt { result: Option<Value> },
    /// The run cannot go on; `line` is the source line recorded for the
    /// faulting instruction, when there is one.
    Fault { kind: FaultKind, line: Option<usize> },
}

/// The machine's observable state: the instruction pointer and the operand
/// stack, top last.
pub ghost struct VmState {
    pub ip: int,
    pub stack: Seq<Value>,
}

/// One step of the transition system: what the step reports, and the state
/// it moves to.
pub ghost struct Transition {
    pub step: Step,
    pub ip: int,
    pub stack: Seq<Value>,
}

/// The source line recorded for the code byte at `off`, if any.
pub open spec fn line_of(c: ChunkView, off: int) -> Option<usize> {
    if 0 <= off < c.lines.len() {
        Some(c.lines[off])
    } else {
        None
    }
}

/// The machine's transition function: fetch the byte at `ip`, decode it,
/// and dispatch — exactly what one `step` call does and reports.
pub open spec fn step_spec(c: ChunkView, ip: int, stack: Seq<Value>) -> Transition {
    if ip >= c.code.len() {
        Transition { step: Step::Fault { kind: FaultKind::EndOfCode, line: None }, ip, stack }
    } else {
        match decode_opcode(c.code[ip]) {
            None => Transition {
                step: Step::Fault { kind: FaultKind::UnknownOpcode, line: line_of(c, ip) },
                ip,
                stack,
            },
            Some(op) => match op {
                OpCode::Constant => {
                    if ip + 1 >= c.code.len() {
                        Transition {
                            step: Step::Fault { kind: FaultKind::EndOfCode, line: line_of(c, ip) },
                            ip,
                            stack,
                        }
                    } else if c.code[ip + 1] as int >= c.constants.len() {
                        Transition {
                            step: Step::Fault {
                                kind: FaultKind::InvalidConstant,
                                line: line_of(c, ip),
                            },
                            ip,
                            stack,
                        }
                    } else {
                        Transition {
                            step: Step::Pushed,
                            ip: ip + 2,
                            stack: stack.push(c.constants[c.code[ip + 1] as int]),
                        }
                    }
                },
                OpCode::Return => {
                    if stack.len() == 0 {
                        Transition { step: Step::Halt { result: None }, ip: ip + 1, stack }
                    } else {
                        Transition {
                            step: Step::Halt { result: Some(stack.last()) },
                            ip: ip + 1,
                            stack: stack.drop_last(),
                        }
                    }
                },
                OpCode::Negate => {
                    if stack.len() == 0 {
                        Transition {
                            step: Step::Fault {
                                kind: FaultKind::StackUnderflow,
                                line: line_of(c, ip),
                            },
                            ip,
                            stack,
                        }
                    } else {
                        Transition {
                            step: Step::Negation { v: stack.last() },
                            ip: ip + 1,
                            stack: stack.drop_last(),
                        }
                    }
                },
                OpCode::Add | OpCode::Subtract | OpCode::Multiply | OpCode::Divide => {
                    if stack.len() < 2 {
                        Transition {
                            step: Step::Fault {
                                kind: FaultKind::StackUnderflow,
                                line: line_of(c, ip),
                            },
                            ip,
                            stack,
                        }
                    } else {
                        Transition {
                            step: Step::Arithmetic {
                                op: match op {
                                    OpCode::Subtract => BinaryOp::Subtract,
                                    OpCode::Multiply => BinaryOp::Multiply,
                                    OpCode::Divide => BinaryOp::Divide,
                                    _ => BinaryOp::Add,
                                },
                                a: stack[stack.len() - 2],
                                b: stack[stack.len() - 1],
                            },
                            ip: ip + 1,
                            stack: stack.drop_last().drop_last(),
                        }
                    }
                },
            },
        }
    }
}

/// A stack machine over a chunk's bytecode. It owns no state across runs
/// but its instruction pointer and its operand stack.
pub struct VM {
    ip: usize,
    stack: Vec<Value>,
}

impl View for VM {
    type V = VmState;

    closed spec fn view(&self) -> VmState {
        VmState { ip: self.ip as int, stack: self.stack@ }
    }
}

impl VM {
    /// A machine with an empty stack, ready at the start of a chunk.
    pub fn new() -> (vm: VM)
        ensures
            vm@.ip == 0,
            vm@.stack == Seq::<Value>::empty(),
    {
        VM { ip: 0, stack: Vec::new() }
    }

    /// Puts the machine back at the start of a chunk with an empty stack.
    pub fn reset(&mut self)
        ensures
            final(self)@.ip == 0,
            final(self)@.stack == Seq::<Value>::empty(),
    {
        self.ip = 0;
        self.stack = Vec::new();
    }

    /// How many values the operand stack holds.
    pub fn stack_len(&self) -> (n: usize)
        ensures
            n == self@.stack.len(),
    {
        self.stack.len()
    }

    /// Pushes a value onto the operand stack — how the caller hands back
    /// the result it computed for an `Arithmetic` or `Negation` step.
    pub fn push(&mut self, value: Value)
        ensures
            final(self)@.ip == old(self)@.ip,
            final(self)@.stack == old(self)@.stack.push(value),
    {
        self.stack.push(value);
    }

    /// Fetches, decodes and executes one instruction of `chunk`, moving
    /// the state exactly as the transition function says.
    pub fn step(&mut self, chunk: &Chunk) -> (s: Step)
        requires
            chunk@.wf(),
        ensures
            ({
                let t = step_spec(chunk@, old(self)@.ip, old(self)@.stack);
                &&& s == t.step
                &&& final(self)@.ip == t.ip
                &&& final(self)@.stack == t.stack
            }),
    {
        if self.ip >= chunk.count() {
            return Step::Fault { kind: FaultKind::EndOfCode, line: None };
        }
        let line = chunk.line_at(self.ip);
        let b = chunk.read(self.ip);
        match OpCode::from_byte(b) {
            None => Step::Fault { kind: FaultKind::UnknownOpcode, line: Some(line) },
            Some(OpCode::Constant) => {
                if self.ip + 1 >= chunk.count() {
                    Step::Fault { kind: FaultKind::EndOfCode, line: Some(line) }
                } else {
                    let index = chunk.read(self.ip + 1) as usize;
                    if index >= chunk.constant_count() {
                        Step::Fault { kind: FaultKind::InvalidConstant, line: Some(line) }
                    } else {
                        let v = chunk.get_constant(index);
                        self.ip = self.ip + 2;
                        self.stack.push(v);
                        Step::Pushed
                    }
                }
            },
            Some(OpCode::Return) => {
                self.ip = self.ip + 1;
                match self.stack.pop() {
                    Some(v) => Step::Halt { result: Some(v) },
                    None => Step::Halt { result: None },
                }
            },
            Some(OpCode::Negate) => {
                if self.stack.len() == 0 {
                    Step::Fault { kind: FaultKind::StackUnderflow, line: Some(line) }
                } else {
                    self.ip = self.ip + 1;
                    let v = self.stack.pop().unwrap();
                    Step::Negation { v }
                }
            },
            Some(OpCode::Add) => self.binary_op(BinaryOp::Add, line),
            Some(OpCode::Subtract) => self.binary_op(BinaryOp::Subtract, line),
            Some(OpCode::Multiply) => self.binary_op(BinaryOp::Multiply, line),
            Some(OpCode::Divide) => self.binary_op(BinaryOp::Divide, line),
        }
    }

    /// Pops the two operands of a binary arithmetic instruction — the
    /// right one first, since it sits on top — and asks the caller for the
    /// result; a fault when the stack holds fewer than two values.
    fn binary_op(&mut self, op: BinaryOp, line: usize) -> (s: Step)
        requires
            old(self)@.ip < usize::MAX,
        ensures
            old(self)@.stack.len() < 2 ==> s == (Step::Fault {
                kind: FaultKind::StackUnderflow,
                line: Some(line),
            }) && final(self)@ == old(self)@,
            old(self)@.stack.len() >= 2 ==> s == (Step::Arithmetic {
                op,
                a: old(self)@.stack[old(self)@.stack.len() - 2],
                b: old(self)@.stack[old(self)@.stack.len() - 1],
            }) && final(self)@.ip == old(self)@.ip + 1 && final(self)@.stack == old(
                self,
            )@.stack.drop_last().drop_last(),
    {
        if self.stack.len() < 2 {
            Step::Fault { kind: FaultKind::StackUnderflow, line: Some(line) }
        } else {
            self.ip = self.ip + 1;
            let b = self.stack.pop().unwrap();
            let a = self.stack.pop().unwrap();
            Step::Arithmetic { op, a, b }
        }
    }

    /// Compiles `source` and reports the outcome, with the machine reset
    /// to its initial state. The current compilation stage emits no
    /// instructions on success, so there is nothing to run; `step` is the
    /// entry for executing a chunk.
    ///
    /// The length bound is the scanner's machine limit on its line
    /// counter.
    pub fn interpret(&mut self, source: &String) -> (r: InterpretResult)
        requires
            source@.len() < usize::MAX,
        ensures
            final(self)@.ip == 0,
            final(self)@.stack == Seq::<Value>::empty(),
            r == (if advance_spec(source@, 0, 1).errors.len() > 0 {
                InterpretResult::CompileError
            } else {
                InterpretResult::Success
            }),
    {
        self.reset();
        let mut compiler = Compiler::new();
        match compiler.compile(source.as_str()) {
            Ok(_chunk) => InterpretResult::Success,
            Err(_) => InterpretResult::CompileError,
        }
    }

    /// Discards the operand stack.
    pub fn free(&mut self)
        ensures
            final(self)@.ip == old(self)@.ip,
            final(self)@.stack == Seq::<Value>::empty(),
    {
        self.stack = Vec::new();
    }
}

} // verus!
