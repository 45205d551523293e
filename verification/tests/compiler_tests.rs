use rlox::InterpretError;
use rlox::compiler::Compiler;
use rlox::scanner::TokenType;

#[test]
fn clean_source_compiles_to_an_empty_chunk() {
    let mut compiler = Compiler::new();
    match compiler.compile("1 + 2") {
        Ok(chunk) => {
            assert_eq!(chunk.count(), 0);
            assert_eq!(chunk.constant_count(), 0);
        }
        Err(_) => panic!("expected the unit to compile"),
    }
    assert!(compiler.errors().is_empty());
}

#[test]
fn lexical_error_fails_the_unit() {
    let mut compiler = Compiler::new();
    match compiler.compile("\"abc") {
        Ok(_) => panic!("expected a compile error"),
        Err(e) => assert_eq!(e, InterpretError::CompileError),
    }
    assert_eq!(compiler.errors().as_slice(), ["[line 1] Error: Unterminated string."]);
}

#[test]
fn every_leading_error_is_reported() {
    let mut compiler = Compiler::new();
    assert!(compiler.compile("@ # 1").is_err());
    assert_eq!(
        compiler.errors().as_slice(),
        [
            "[line 1] Error: Unexpected character.",
            "[line 1] Error: Unexpected character.",
        ]
    );
}

#[test]
fn a_reused_compiler_starts_each_unit_clean() {
    let mut compiler = Compiler::new();
    assert!(compiler.compile("@").is_err());
    assert_eq!(compiler.errors().len(), 1);
    assert!(compiler.compile("1 + 2").is_ok());
    assert!(compiler.errors().is_empty());
    assert!(!compiler.parser.had_error);
}

#[test]
fn error_line_numbers_follow_the_source() {
    let mut compiler = Compiler::new();
    assert!(compiler.compile("\n\n@").is_err());
    assert_eq!(compiler.errors().as_slice(), ["[line 3] Error: Unexpected character."]);
}

#[test]
fn advance_pulls_the_first_token() {
    let mut compiler = Compiler::new();
    assert!(compiler.compile("for").is_ok());
    assert_eq!(compiler.parser.current.token_type, TokenType::For);
    assert_eq!(compiler.parser.current.lexeme, "for");
    assert!(!compiler.parser.had_error);
}

#[test]
fn error_at_an_ordinary_token_names_its_lexeme() {
    let mut compiler = Compiler::new();
    assert!(compiler.compile("for").is_ok());
    compiler.error_at_current("Expect expression.");
    assert_eq!(compiler.errors().as_slice(), ["[line 1] Error at 'for': Expect expression."]);
    assert!(compiler.parser.had_error);
}

#[test]
fn error_at_the_end_of_input_says_so() {
    let mut compiler = Compiler::new();
    assert!(compiler.compile("").is_ok());
    compiler.error_at_current("Expect end of expression.");
    assert_eq!(
        compiler.errors().as_slice(),
        ["[line 1] Error at end: Expect end of expression."]
    );
}

#[test]
fn error_reports_at_the_previous_token() {
    let mut compiler = Compiler::new();
    assert!(compiler.compile("var x").is_ok());
    // One more advance moves `var` into the previous slot.
    compiler.advance();
    assert_eq!(compiler.parser.previous.token_type, TokenType::Var);
    compiler.error("Expect something else.");
    assert_eq!(
        compiler.errors().as_slice(),
        ["[line 1] Error at 'var': Expect something else."]
    );
}
