use rlox::chunk::{Chunk, OpCode};
use rlox::value::ValueArray;

#[test]
fn written_bytes_read_back_in_order() {
    let mut chunk = Chunk::new();
    let bytes = [1u8, 2, 0, 7, 255];
    for (i, b) in bytes.iter().enumerate() {
        chunk.write(*b, i + 1);
    }
    assert_eq!(chunk.count(), bytes.len());
    for (i, b) in bytes.iter().enumerate() {
        assert_eq!(chunk.read(i), *b);
        assert_eq!(chunk.line_at(i), i + 1);
    }
}

#[test]
fn writes_and_constants_interleave() {
    let mut chunk = Chunk::new();
    let i0 = chunk.add_constants(1.5f64.to_bits()).unwrap();
    chunk.write_opcode(OpCode::Constant, 1);
    chunk.write(i0, 1);
    let i1 = chunk.add_constants(2.5f64.to_bits()).unwrap();
    chunk.write_opcode(OpCode::Constant, 1);
    chunk.write(i1, 1);
    assert_eq!(i0, 0);
    assert_eq!(i1, 1);
    assert_eq!(chunk.count(), 4);
    assert_eq!(chunk.constant_count(), 2);
    assert_eq!(f64::from_bits(chunk.get_constant(0)), 1.5);
    assert_eq!(f64::from_bits(chunk.get_constant(1)), 2.5);
}

#[test]
fn constant_pool_caps_at_256() {
    let mut chunk = Chunk::new();
    for i in 0..256u32 {
        let index = chunk.add_constants((i as f64).to_bits());
        assert_eq!(index, Some(i as u8));
    }
    assert_eq!(chunk.add_constants(0), None);
    assert_eq!(chunk.constant_count(), 256);
}

#[test]
fn opcode_bytes_round_trip() {
    let ops = [
        OpCode::Constant,
        OpCode::Return,
        OpCode::Negate,
        OpCode::Add,
        OpCode::Subtract,
        OpCode::Multiply,
        OpCode::Divide,
    ];
    for (i, op) in ops.iter().enumerate() {
        assert_eq!(op.as_byte(), i as u8);
        assert_eq!(OpCode::from_byte(i as u8), Some(*op));
    }
    assert_eq!(OpCode::from_byte(7), None);
    assert_eq!(OpCode::from_byte(255), None);
}

#[test]
fn free_discards_everything() {
    let mut chunk = Chunk::new();
    chunk.write_opcode(OpCode::Return, 1);
    chunk.add_constants(1.0f64.to_bits()).unwrap();
    chunk.free();
    assert_eq!(chunk.count(), 0);
    assert_eq!(chunk.constant_count(), 0);
}

#[test]
fn value_array_appends_and_reads() {
    let mut values = ValueArray::new();
    assert_eq!(values.write(1.25f64.to_bits()), 0);
    assert_eq!(values.write(2.5f64.to_bits()), 1);
    assert_eq!(values.count(), 2);
    assert_eq!(f64::from_bits(values.read(0)), 1.25);
    assert_eq!(f64::from_bits(values.read(1)), 2.5);
    values.free();
    assert_eq!(values.count(), 0);
}

fn constant_texts(chunk: &Chunk) -> Vec<String> {
    let mut texts = Vec::new();
    for i in 0..chunk.constant_count() {
        texts.push(format!("{}", f64::from_bits(chunk.get_constant(i))));
    }
    texts
}

#[test]
fn disassemble_simple_instruction() {
    let mut chunk = Chunk::new();
    chunk.write_opcode(OpCode::Return, 123);
    let (line, next) = chunk.disassemble_instruction(0, "");
    assert_eq!(line, "0000  123 [OP_RETURN]");
    assert_eq!(next, 1);
}

#[test]
fn disassemble_constant_instruction() {
    let mut chunk = Chunk::new();
    let index = chunk.add_constants(1.2f64.to_bits()).unwrap();
    chunk.write_opcode(OpCode::Constant, 5);
    chunk.write(index, 5);
    let (line, next) = chunk.disassemble_instruction(0, "1.2");
    assert_eq!(line, "0000    5 [OP_CONSTANT     ]    0 '1.2'");
    assert_eq!(next, 2);
}

#[test]
fn disassembly_marks_a_continued_source_line() {
    let mut chunk = Chunk::new();
    chunk.write_opcode(OpCode::Return, 123);
    chunk.write_opcode(OpCode::Return, 123);
    let text = chunk.disassemble("test", &constant_texts(&chunk));
    assert_eq!(text, "== test ==\n0000  123 [OP_RETURN]\n0001    | [OP_RETURN]\n");
}

#[test]
fn disassembly_repeats_a_changed_source_line() {
    let mut chunk = Chunk::new();
    chunk.write_opcode(OpCode::Return, 1);
    chunk.write_opcode(OpCode::Return, 2);
    let text = chunk.disassemble("t", &constant_texts(&chunk));
    assert_eq!(text, "== t ==\n0000    1 [OP_RETURN]\n0001    2 [OP_RETURN]\n");
}

#[test]
fn disassembly_of_an_empty_chunk_is_only_the_header() {
    let chunk = Chunk::new();
    assert_eq!(chunk.disassemble("empty", &Vec::new()), "== empty ==\n");
}

#[test]
fn disassembly_of_a_whole_program() {
    let mut chunk = Chunk::new();
    let index = chunk.add_constants(1.2f64.to_bits()).unwrap();
    chunk.write_opcode(OpCode::Constant, 1);
    chunk.write(index, 1);
    chunk.write_opcode(OpCode::Negate, 1);
    chunk.write_opcode(OpCode::Return, 2);
    let text = chunk.disassemble("program", &constant_texts(&chunk));
    assert_eq!(
        text,
        "== program ==\n\
         0000    1 [OP_CONSTANT     ]    0 '1.2'\n\
         0002    | [OP_NEGATE]\n\
         0003    2 [OP_RETURN]\n"
    );
}
