//! The bytecode container: an instruction stream, a parallel per-byte
//! source-line table, and a constant pool.

use vstd::prelude::*;
use vstd::string::StringExecFns;
use crate::text::{dec_str, fmt_usize, pad_left, pad_left_with, pad_right, pad_right_with};
use crate::value::{Value, ValueArray};

verus! {

/// One virtual-machine instruction tag. `Constant` carries one trailing
/// operand byte, an index into the chunk's constant pool; every other
/// opcode stands alone.
#[derive(Debug, Clone, Copy, PartialEq, Eq, Structural)]
pub enum OpCode {
    Constant,
    Return,
    Negate,
    Add,
    Subtract,
    Multiply,
    Divide,
}

/// The stable single-byte encoding of an opcode.
pub open spec fn opcode_byte(op: OpCode) -> u8 {
    match op {
        OpCode::Constant => 0,
        OpCode::Return => 1,
        OpCode::Negate => 2,
        OpCode::Add => 3,
        OpCode::Subtract => 4,
        OpCode::Multiply => 5,
        OpCode::Divide => 6,
    }
}

/// The opcode a byte decodes to, if any.
pub open spec fn decode_opcode(b: u8) -> Option<OpCode> {
    if b == 0 {
        Some(OpCode::Constant)
    } else if b == 1 {
        Some(OpCode::Return)
    } else if b == 2 {
        Some(OpCode::Negate)
    } else if b == 3 {
        Some(OpCode::Add)
    } else if b == 4 {
        Some(OpCode::Subtract)
    } else if b == 5 {
        Some(OpCode::Multiply)
    } else if b == 6 {
        Some(OpCode::Divide)
    } else {
        None
    }
}

impl OpCode {
    /// The stable byte this opcode is encoded as.
    pub fn as_byte(self) -> (b: u8)
        ensures
            b == opcode_byte(self),
    {
        match self {
            OpCode::Constant => 0,
            OpCode::Return => 1,
            OpCode::Negate => 2,
            OpCode::Add => 3,
            OpCode::Subtract => 4,
            OpCode::Multiply => 5,
            OpCode::Divide => 6,
        }
    }

    /// Decodes a byte back to its opcode; `None` for a byte that encodes no
    /// opcode.
    pub fn from_byte(b: u8) -> (r: Option<OpCode>)
        ensures
            r == decode_opcode(b),
    {
        if b == 0 {
            Some(OpCode::Constant)
        } else if b == 1 {
            Some(OpCode::Return)
        } else if b == 2 {
            Some(OpCode::Negate)
        } else if b == 3 {
            Some(OpCode::Add)
        } else if b == 4 {
            Some(OpCode::Subtract)
        } else if b == 5 {
            Some(OpCode::Multiply)
        } else if b == 6 {
            Some(OpCode::Divide)
        } else {
            None
        }
    }
}

/// Decoding is a left inverse of encoding: every opcode survives the round
/// trip through its byte form.
pub proof fn lemma_opcode_round_trip(op: OpCode)
    ensures
        decode_opcode(opcode_byte(op)) == Some(op),
{
}

/// The mathematical content of a `Chunk`.
pub ghost struct ChunkView {
    pub code: Seq<u8>,
    pub lines: Seq<usize>,
    pub constants: Seq<Value>,
}

impl ChunkView {
    /// The structural invariant: one source line per code byte, and a
    /// constant pool no larger than one operand byte can index.
    pub open spec fn wf(self) -> bool {
        &&& self.code.len() == self.lines.len()
        &&& self.constants.len() <= 256
    }
}

/// A self-contained unit of bytecode: the instruction/operand bytes, the
/// source line each byte came from, and the constants the bytes refer to.
///
/// A chunk is built once by successive `write`/`add_constants` calls, read
/// by the virtual machine, and discarded with `free`.
pub struct Chunk {
    code: Vec<u8>,
    lines: Vec<usize>,
    constants: ValueArray,
}

impl View for Chunk {
    type V = ChunkView;

    closed spec fn view(&self) -> ChunkView {
        ChunkView { code: self.code@, lines: self.lines@, constants: self.constants@ }
    }
}

impl Chunk {
    /// An empty chunk.
    pub fn new() -> (c: Chunk)
        ensures
            c@.code == Seq::<u8>::empty(),
            c@.lines == Seq::<usize>::empty(),
            c@.constants == Seq::<Value>::empty(),
    {
        Chunk { code: Vec::new(), lines: Vec::new(), constants: ValueArray::new() }
    }

    /// Appends one instruction or operand byte together with the source
    /// line it came from. This layer does not judge whether the byte makes
    /// a well-formed instruction stream; that is the writer's business.
    pub fn write(&mut self, byte: u8, line: usize)
        ensures
            final(self)@ == chunk_apply(old(self)@, ChunkOp::Write(byte, line)),
            final(self)@.code == old(self)@.code.push(byte),
            final(self)@.lines == old(self)@.lines.push(line),
            final(self)@.constants == old(self)@.constants,
    {
        self.code.push(byte);
        self.lines.push(line);
    }

    /// Appends an opcode's byte encoding.
    pub fn write_opcode(&mut self, opcode: OpCode, line: usize)
        ensures
            final(self)@ == chunk_apply(old(self)@, ChunkOp::Write(opcode_byte(opcode), line)),
            final(self)@.code == old(self)@.code.push(opcode_byte(opcode)),
            final(self)@.lines == old(self)@.lines.push(line),
            final(self)@.constants == old(self)@.constants,
    {
        let b = opcode.as_byte();
        self.write(b, line);
    }

    /// Bounds-checked random access to the instruction stream.
    pub fn read(&self, ip: usize) -> (b: u8)
        requires
            ip < self@.code.len(),
        ensures
            b == self@.code[ip as int],
    {
        self.code[ip]
    }

    /// The source line recorded for the code byte at `offset`.
    pub fn line_at(&self, offset: usize) -> (line: usize)
        requires
            offset < self@.lines.len(),
        ensures
            line == self@.lines[offset as int],
    {
        self.lines[offset]
    }

    /// How many bytes of code the chunk holds.
    pub fn count(&self) -> (n: usize)
        ensures
            n == self@.code.len(),
    {
        self.code.len()
    }

    /// Appends a value to the constant pool and returns the operand byte
    /// that refers to it. Fails with `None` when the pool already holds 256
    /// values: operand indices are single bytes, so a larger pool could not
    /// be addressed.
    pub fn add_constants(&mut self, value: Value) -> (r: Option<u8>)
        requires
            old(self)@.wf(),
        ensures
            final(self)@ == chunk_apply(old(self)@, ChunkOp::AddConstant(value)),
            old(self)@.constants.len() < 256 ==> r == Some(old(self)@.constants.len() as u8)
                && final(self)@.constants == old(self)@.constants.push(value),
            old(self)@.constants.len() >= 256 ==> r == None::<u8> && final(self)@ == old(self)@,
            final(self)@.code == old(self)@.code,
            final(self)@.lines == old(self)@.lines,
            final(self)@.wf(),
    {
        if self.constants.count() < 256 {
            let index = self.constants.write(value);
            Some(index as u8)
        } else {
            None
        }
    }

    /// The number of constants in the pool.
    pub fn constant_count(&self) -> (n: usize)
        ensures
            n == self@.constants.len(),
    {
        self.constants.count()
    }

    /// Bounds-checked access to the constant pool.
    pub fn get_constant(&self, index: usize) -> (v: Value)
        requires
            index < self@.constants.len(),
        ensures
            v == self@.constants[index as int],
    {
        self.constants.read(index)
    }

    /// Discards the code, the line table and the constant pool.
    pub fn free(&mut self)
        ensures
            final(self)@.code == Seq::<u8>::empty(),
            final(self)@.lines == Seq::<usize>::empty(),
            final(self)@.constants == Seq::<Value>::empty(),
    {
        self.code = Vec::new();
        self.lines = Vec::new();
        self.constants.free();
    }
}

// ---------------------------------------------------------------------
// Disassembly
// ---------------------------------------------------------------------

/// How many code bytes the instruction beginning with byte `b` occupies:
/// two for `Constant` (opcode plus operand), one for everything else.
pub open spec fn instr_size(b: u8) -> int {
    if b == opcode_byte(OpCode::Constant) {
        2
    } else {
        1
    }
}

/// Whether the code from `offset` on parses as a sequence of well-formed
/// instructions: every opcode byte is recognized and every operand is
/// present. Decoding anything else is a programming error — the byte
/// stream is assumed to come from a correct writer — so the disassembler
/// requires this.
pub open spec fn wf_code_from(code: Seq<u8>, offset: int) -> bool
    decreases code.len() - offset,
{
    if 0 <= offset < code.len() {
        &&& decode_opcode(code[offset]) is Some
        &&& offset + instr_size(code[offset]) <= code.len()
        &&& wf_code_from(code, offset + instr_size(code[offset]))
    } else {
        true
    }
}

/// The mnemonic of an opcode.
pub open spec fn opcode_mnemonic(op: OpCode) -> Seq<char> {
    match op {
        OpCode::Constant => "OP_CONSTANT"@,
        OpCode::Return => "OP_RETURN"@,
        OpCode::Negate => "OP_NEGATE"@,
        OpCode::Add => "OP_ADD"@,
        OpCode::Subtract => "OP_SUBTRACT"@,
        OpCode::Multiply => "OP_MULTIPLY"@,
        OpCode::Divide => "OP_DIVIDE"@,
    }
}

impl OpCode {
    /// The mnemonic of this opcode.
    pub fn mnemonic(&self) -> (s: &'static str)
        ensures
            s@ == opcode_mnemonic(*self),
    {
        match self {
            OpCode::Constant => "OP_CONSTANT",
            OpCode::Return => "OP_RETURN",
            OpCode::Negate => "OP_NEGATE",
            OpCode::Add => "OP_ADD",
            OpCode::Subtract => "OP_SUBTRACT",
            OpCode::Multiply => "OP_MULTIPLY",
            OpCode::Divide => "OP_DIVIDE",
        }
    }
}

/// The line-number column for the instruction at `offset`: the recorded
/// source line, right-aligned — or a continuation marker when the previous
/// code byte carries the same line, so that an instruction continuing a
/// source line is not shown with a repeated number.
pub open spec fn dis_line_field(c: ChunkView, offset: int) -> Seq<char> {
    if offset > 0 && c.lines[offset] == c.lines[offset - 1] {
        "   | "@
    } else {
        pad_left(dec_str(c.lines[offset] as int), 4, ' ') + " "@
    }
}

/// For any chunk and any instruction after the first: when the previous
/// code byte carries the same source line, the rendered line column is the
/// continuation marker, never a repeated number; at the start of the code,
/// or when the line changes, it is the 4-wide line number. Every rendered
/// instruction embeds this column through `dis_instruction`.
pub proof fn lemma_continuation_marker(c: ChunkView, offset: int)
    requires
        0 <= offset < c.lines.len(),
    ensures
        (offset > 0 && c.lines[offset] == c.lines[offset - 1]) ==> dis_line_field(c, offset)
            == "   | "@,
        (offset == 0 || c.lines[offset] != c.lines[offset - 1]) ==> dis_line_field(c, offset)
            == pad_left(dec_str(c.lines[offset] as int), 4, ' ') + " "@,
{
}

/// The full rendering of the instruction at `offset`: its zero-padded
/// offset, its line column, and its bracketed mnemonic — for `Constant`,
/// padded and followed by the operand index and `vtext`, the caller's
/// rendering of the referenced constant.
pub open spec fn dis_instruction(c: ChunkView, offset: int, vtext: Seq<char>) -> Seq<char>
    recommends
        0 <= offset < c.code.len(),
        decode_opcode(c.code[offset]) is Some,
{
    let head = pad_left(dec_str(offset), 4, '0') + " "@ + dis_line_field(c, offset);
    match decode_opcode(c.code[offset]) {
        Some(OpCode::Constant) => head + "["@ + pad_right(
            opcode_mnemonic(OpCode::Constant),
            16,
            ' ',
        ) + "] "@ + pad_left(dec_str(c.code[offset + 1] as int), 4, ' ') + " '"@ + vtext + "'"@,
        Some(op) => head + "["@ + opcode_mnemonic(op) + "]"@,
        None => head,
    }
}

/// The rendering the caller's table gives for the instruction at
/// `offset`: the text at the constant's index for a `Constant`
/// instruction, nothing for every other instruction or when the table has
/// no entry for that index.
pub open spec fn dis_text_for(c: ChunkView, offset: int, texts: Seq<Seq<char>>) -> Seq<char> {
    if c.code[offset] == opcode_byte(OpCode::Constant) && offset + 1 < c.code.len() {
        if c.code[offset + 1] < texts.len() {
            texts[c.code[offset + 1] as int]
        } else {
            Seq::<char>::empty()
        }
    } else {
        Seq::<char>::empty()
    }
}

/// The whole disassembly from `offset` on: one rendered instruction per
/// line.
pub open spec fn dis_all(c: ChunkView, offset: int, texts: Seq<Seq<char>>) -> Seq<char>
    decreases c.code.len() - offset,
{
    if 0 <= offset < c.code.len() {
        let next = offset + instr_size(c.code[offset]);
        dis_instruction(c, offset, dis_text_for(c, offset, texts)) + seq!['\n'] + (if next
            <= c.code.len() {
            dis_all(c, next, texts)
        } else {
            Seq::<char>::empty()
        })
    } else {
        Seq::<char>::empty()
    }
}

impl Chunk {
    /// The constant-pool index the instruction at `offset` carries: its
    /// operand byte when it is a `Constant` instruction, nothing
    /// otherwise — how a caller learns which constant's rendering
    /// `disassemble_instruction` will need.
    pub fn constant_operand(&self, offset: usize) -> (r: Option<u8>)
        requires
            offset < self@.code.len(),
        ensures
            r == (if self@.code[offset as int] == opcode_byte(OpCode::Constant) && offset + 1
                < self@.code.len() {
                Some(self@.code[offset as int + 1])
            } else {
                None::<u8>
            }),
    {
        let n = self.code.len();
        if self.code[offset] == 0 && offset < n - 1 {
            Some(self.code[offset + 1])
        } else {
            None
        }
    }

    /// Renders the simple, zero-operand instruction `op` at `offset` onto
    /// `head`; the next instruction begins one byte further.
    fn simple_instruction(&self, op: OpCode, head: String, offset: usize) -> (r: (String, usize))
        requires
            offset < usize::MAX,
        ensures
            r.0@ == head@ + "["@ + opcode_mnemonic(op) + "]"@,
            r.1 == offset + 1,
    {
        let mut out = head;
        out.append("[");
        out.append(op.mnemonic());
        out.append("]");
        (out, offset + 1)
    }

    /// Renders the `Constant` instruction at `offset` onto `head`: the
    /// padded mnemonic, the operand index, and `value_text` quoted; the
    /// next instruction begins two bytes further.
    fn constant_instruction(&self, head: String, offset: usize, value_text: &str) -> (r: (
        String,
        usize,
    ))
        requires
            offset + 1 < self@.code.len(),
        ensures
            r.0@ == head@ + "["@ + pad_right(opcode_mnemonic(OpCode::Constant), 16, ' ') + "] "@
                + pad_left(dec_str(self@.code[offset as int + 1] as int), 4, ' ') + " '"@
                + value_text@ + "'"@,
            r.1 == offset + 2,
    {
        proof {
            reveal_strlit(" ");
        }
        let n = self.code.len();
        let mut out = head;
        out.append("[");
        let padded_name = pad_right_with(OpCode::Constant.mnemonic(), 16, " ");
        out.append(padded_name.as_str());
        out.append("] ");
        let index = self.code[offset + 1];
        let index_text = fmt_usize(index as usize);
        let padded_index = pad_left_with(index_text.as_str(), 4, " ");
        out.append(padded_index.as_str());
        out.append(" '");
        out.append(value_text);
        out.append("'");
        (out, offset + 2)
    }

    /// Decodes and renders the one instruction at `offset`, and returns
    /// the rendered line together with the offset of the following
    /// instruction. `value_text` is the caller's rendering of the
    /// referenced constant, used only by a `Constant` instruction — the
    /// one piece of the line the library does not compute itself, since it
    /// would take floating-point formatting.
    pub fn disassemble_instruction(&self, offset: usize, value_text: &str) -> (r: (String, usize))
        requires
            self@.wf(),
            offset < self@.code.len(),
            decode_opcode(self@.code[offset as int]) is Some,
            offset + instr_size(self@.code[offset as int]) <= self@.code.len(),
        ensures
            r.0@ == dis_instruction(self@, offset as int, value_text@),
            r.1 == offset + instr_size(self@.code[offset as int]),
    {
        proof {
            reveal_strlit("0");
            reveal_strlit(" ");
        }
        let offset_text = fmt_usize(offset);
        let mut head = pad_left_with(offset_text.as_str(), 4, "0");
        head.append(" ");
        // A continuation marker for an instruction that comes from the
        // same source line as the preceding byte.
        if offset > 0 && self.lines[offset] == self.lines[offset - 1] {
            head.append("   | ");
        } else {
            let line_text = fmt_usize(self.lines[offset]);
            let padded_line = pad_left_with(line_text.as_str(), 4, " ");
            head.append(padded_line.as_str());
            head.append(" ");
        }
        proof {
            assert(head@ =~= pad_left(dec_str(offset as int), 4, '0') + " "@ + dis_line_field(
                self@,
                offset as int,
            ));
        }
        let n = self.code.len();
        let b = self.code[offset];
        let op = OpCode::from_byte(b).unwrap();
        let r = match op {
            OpCode::Constant => self.constant_instruction(head, offset, value_text),
            _ => self.simple_instruction(op, head, offset),
        };
        proof {
            assert(r.0@ =~= dis_instruction(self@, offset as int, value_text@));
        }
        r
    }

    /// Renders the whole chunk, headed by `== name ==`, one instruction
    /// per line: the human-readable view of the instruction stream, with
    /// no effect on execution. `constant_texts` holds the caller's
    /// rendering of each pool constant, by index; an instruction whose
    /// index has no entry shows an empty value.
    pub fn disassemble(&self, name: &str, constant_texts: &Vec<String>) -> (r: String)
        requires
            self@.wf(),
            wf_code_from(self@.code, 0),
        ensures
            r@ == "== "@ + name@ + " ==\n"@ + dis_all(self@, 0, constant_texts.deep_view()),
    {
        let ghost texts = constant_texts.deep_view();
        let mut out = String::new();
        out.append("== ");
        out.append(name);
        out.append(" ==\n");
        let mut offset: usize = 0;
        while offset < self.code.len()
            invariant
                self@.wf(),
                wf_code_from(self@.code, offset as int),
                offset <= self@.code.len(),
                texts == constant_texts.deep_view(),
                out@ + dis_all(self@, offset as int, texts) == "== "@ + name@ + " ==\n"@ + dis_all(
                    self@,
                    0,
                    texts,
                ),
            decreases self@.code.len() - offset,
        {
            let value_text: String = match self.constant_operand(offset) {
                Some(index) => {
                    if (index as usize) < constant_texts.len() {
                        constant_texts[index as usize].clone()
                    } else {
                        String::new()
                    }
                },
                None => String::new(),
            };
            proof {
                assert(value_text@ == dis_text_for(self@, offset as int, texts));
            }
            let (line, next) = self.disassemble_instruction(offset, value_text.as_str());
            out.append(line.as_str());
            out.append("\n");
            proof {
                reveal_strlit("\n");
                assert("\n"@ =~= seq!['\n']);
                assert(out@ + dis_all(self@, next as int, texts) =~= "== "@ + name@ + " ==\n"@
                    + dis_all(self@, 0, texts));
            }
            offset = next;
        }
        out
    }
}

/// One mutation of a chunk: appending an instruction byte with its source
/// line, or appending a constant.
pub ghost enum ChunkOp {
    Write(u8, usize),
    AddConstant(Value),
}

/// The chunk contents after one mutation. An `AddConstant` on a full pool
/// leaves the chunk unchanged, as `Chunk::add_constants` reports by
/// returning `None`.
pub open spec fn chunk_apply(m: ChunkView, op: ChunkOp) -> ChunkView {
    match op {
        ChunkOp::Write(b, l) => ChunkView {
            code: m.code.push(b),
            lines: m.lines.push(l),
            constants: m.constants,
        },
        ChunkOp::AddConstant(v) => if m.constants.len() < 256 {
            ChunkView { code: m.code, lines: m.lines, constants: m.constants.push(v) }
        } else {
            m
        },
    }
}

/// The chunk contents after a whole sequence of mutations, applied in
/// order.
pub open spec fn chunk_apply_all(m: ChunkView, ops: Seq<ChunkOp>) -> ChunkView
    decreases ops.len(),
{
    if ops.len() == 0 {
        m
    } else {
        chunk_apply_all(chunk_apply(m, ops[0]), ops.drop_first())
    }
}

/// The instruction bytes a sequence of mutations appends, in order.
pub open spec fn bytes_written(ops: Seq<ChunkOp>) -> Seq<u8>
    decreases ops.len(),
{
    if ops.len() == 0 {
        Seq::<u8>::empty()
    } else {
        match ops[0] {
            ChunkOp::Write(b, _l) => seq![b] + bytes_written(ops.drop_first()),
            ChunkOp::AddConstant(_v) => bytes_written(ops.drop_first()),
        }
    }
}

/// However a chunk is built: after every prefix of any sequence of `write`
/// and `add_constants` calls the code and line tables have the same length
/// and the pool stays addressable, and the code ends up holding exactly the
/// written bytes, in order — so `read` at index `initial length + i`
/// returns the `i`-th byte written.
pub proof fn lemma_chunk_build(m: ChunkView, ops: Seq<ChunkOp>)
    requires
        m.wf(),
    ensures
        chunk_apply_all(m, ops).wf(),
        chunk_apply_all(m, ops).code == m.code + bytes_written(ops),
        forall|i: int|
            0 <= i < bytes_written(ops).len() ==> chunk_apply_all(m, ops).code[m.code.len() + i]
                == bytes_written(ops)[i],
    decreases ops.len(),
{
    if ops.len() == 0 {
        assert(chunk_apply_all(m, ops).code =~= m.code + bytes_written(ops));
    } else {
        let m1 = chunk_apply(m, ops[0]);
        lemma_chunk_build(m1, ops.drop_first());
        assert(chunk_apply_all(m, ops).code =~= m.code + bytes_written(ops));
    }
}

} // verus!
