//! The execution core of a small scripting-language toy: a lexical scanner
//! that turns source text into tokens, a bytecode container (`Chunk`) that
//! records instructions, line-number provenance and a constant pool, and a
//! stack-based virtual machine that executes that bytecode.
//!
//! The one runtime value is a 64-bit IEEE-754 number. Verified code never
//! performs floating-point arithmetic itself; a [`value::Value`] is carried
//! as its bit pattern, and the machine hands every arithmetic request to its
//! caller (see [`vm::VM::step`]), who computes on the decoded numbers and
//! pushes the encoded result back.

use vstd::prelude::*;

pub mod text;
pub mod value;
pub mod chunk;
pub mod scanner;
pub mod compiler;
pub mod vm;

verus! {

/// The overall outcome of interpreting one unit of source text, as reported
/// to a command-line driver: compilation may fail on lexical errors, and
/// execution may fail on a runtime fault.
#[derive(Debug, Clone, Copy, PartialEq, Eq, Structural)]
pub enum InterpretError {
    CompileError,
    RuntimeError,
}

} // verus!
