use rlox::scanner::{Scanner, Token, TokenType};

fn scan_all(source: &str) -> Vec<Token> {
    let mut scanner = Scanner::new(source);
    let mut tokens = Vec::new();
    loop {
        let t = scanner.scan_token();
        let done = t.token_type == TokenType::Eof;
        tokens.push(t);
        if done {
            break;
        }
    }
    tokens
}

#[test]
fn scan_one_plus_two() {
    let tokens = scan_all("1 + 2");
    let kinds: Vec<TokenType> = tokens.iter().map(|t| t.token_type).collect();
    assert_eq!(
        kinds,
        vec![TokenType::Number, TokenType::Plus, TokenType::Number, TokenType::Eof]
    );
    assert_eq!(tokens[0].lexeme, "1");
    assert_eq!(tokens[1].lexeme, "+");
    assert_eq!(tokens[2].lexeme, "2");
    for t in &tokens {
        assert_eq!(t.line, 1);
    }
}

#[test]
fn whitespace_and_comments_scan_to_eof() {
    let mut scanner = Scanner::new("   // a comment\n\t\r\n");
    let t = scanner.scan_token();
    assert_eq!(t.token_type, TokenType::Eof);
    assert_eq!(t.lexeme, "");
    assert_eq!(t.line, 3);
}

#[test]
fn empty_source_scans_to_eof_repeatedly() {
    let mut scanner = Scanner::new("");
    for _ in 0..3 {
        let t = scanner.scan_token();
        assert_eq!(t.token_type, TokenType::Eof);
        assert_eq!(t.line, 1);
    }
}

#[test]
fn eof_repeats_after_real_tokens() {
    let mut scanner = Scanner::new("x");
    assert_eq!(scanner.scan_token().token_type, TokenType::Identifier);
    assert_eq!(scanner.scan_token().token_type, TokenType::Eof);
    assert_eq!(scanner.scan_token().token_type, TokenType::Eof);
}

#[test]
fn unterminated_string_is_an_error() {
    let mut scanner = Scanner::new("\"abc");
    let t = scanner.scan_token();
    assert_eq!(t.token_type, TokenType::Error);
    assert_eq!(t.lexeme, "Unterminated string.");
    assert_eq!(t.line, 1);
}

#[test]
fn string_lexeme_keeps_quotes() {
    let mut scanner = Scanner::new("\"ab\"");
    let t = scanner.scan_token();
    assert_eq!(t.token_type, TokenType::String);
    assert_eq!(t.lexeme, "\"ab\"");
    assert_eq!(t.line, 1);
}

#[test]
fn string_counts_embedded_newlines() {
    // The token carries the line of its opening quote; the embedded
    // newline advances the counter only for what follows.
    let mut scanner = Scanner::new("\"a\nb\"x");
    let t = scanner.scan_token();
    assert_eq!(t.token_type, TokenType::String);
    assert_eq!(t.lexeme, "\"a\nb\"");
    assert_eq!(t.line, 1);
    let x = scanner.scan_token();
    assert_eq!(x.token_type, TokenType::Identifier);
    assert_eq!(x.line, 2);
}

#[test]
fn unterminated_string_keeps_its_starting_line() {
    let mut scanner = Scanner::new("\n\"a\nb");
    let t = scanner.scan_token();
    assert_eq!(t.token_type, TokenType::Error);
    assert_eq!(t.lexeme, "Unterminated string.");
    assert_eq!(t.line, 2);
}

#[test]
fn keyword_match_needs_exact_length() {
    let kinds: Vec<TokenType> = ["fo", "for", "foo"]
        .iter()
        .map(|s| scan_all(s)[0].token_type)
        .collect();
    assert_eq!(kinds, vec![TokenType::Identifier, TokenType::For, TokenType::Identifier]);
}

#[test]
fn every_keyword_is_recognized() {
    let cases = [
        ("and", TokenType::And),
        ("class", TokenType::Class),
        ("else", TokenType::Else),
        ("false", TokenType::False),
        ("for", TokenType::For),
        ("fun", TokenType::Fun),
        ("if", TokenType::If),
        ("nil", TokenType::Nil),
        ("or", TokenType::Or),
        ("print", TokenType::Print),
        ("return", TokenType::Return),
        ("super", TokenType::Super),
        ("this", TokenType::This),
        ("true", TokenType::True),
        ("var", TokenType::Var),
        ("while", TokenType::While),
    ];
    for (text, kind) in cases {
        assert_eq!(scan_all(text)[0].token_type, kind, "keyword {}", text);
    }
}

#[test]
fn keyword_prefix_and_extension_are_identifiers() {
    for text in ["ret", "returns", "classy", "tru", "truest", "f", "t"] {
        assert_eq!(scan_all(text)[0].token_type, TokenType::Identifier, "{}", text);
    }
}

#[test]
fn two_character_operators() {
    let kinds: Vec<TokenType> = scan_all("!= == <= >= ! = < >")
        .iter()
        .map(|t| t.token_type)
        .collect();
    assert_eq!(
        kinds,
        vec![
            TokenType::BangEqual,
            TokenType::EqualEqual,
            TokenType::LessEqual,
            TokenType::GreaterEqual,
            TokenType::Bang,
            TokenType::Equal,
            TokenType::Less,
            TokenType::Greater,
            TokenType::Eof,
        ]
    );
}

#[test]
fn punctuation_tokens() {
    let kinds: Vec<TokenType> = scan_all("(){};,.-+/*").iter().map(|t| t.token_type).collect();
    assert_eq!(
        kinds,
        vec![
            TokenType::LeftParen,
            TokenType::RightParen,
            TokenType::LeftBrace,
            TokenType::RightBrace,
            TokenType::Semicolon,
            TokenType::Comma,
            TokenType::Dot,
            TokenType::Minus,
            TokenType::Plus,
            TokenType::Slash,
            TokenType::Star,
            TokenType::Eof,
        ]
    );
}

#[test]
fn fractional_number_is_one_token() {
    let tokens = scan_all("3.14");
    assert_eq!(tokens[0].token_type, TokenType::Number);
    assert_eq!(tokens[0].lexeme, "3.14");
    assert_eq!(tokens[1].token_type, TokenType::Eof);
}

#[test]
fn trailing_dot_is_not_part_of_a_number() {
    let kinds: Vec<TokenType> = scan_all("1.").iter().map(|t| t.token_type).collect();
    assert_eq!(kinds, vec![TokenType::Number, TokenType::Dot, TokenType::Eof]);
    let tokens = scan_all("1.x");
    assert_eq!(tokens[0].lexeme, "1");
    assert_eq!(tokens[1].token_type, TokenType::Dot);
    assert_eq!(tokens[2].token_type, TokenType::Identifier);
}

#[test]
fn unexpected_character_is_an_error_and_scanning_goes_on() {
    let tokens = scan_all("@ 1");
    assert_eq!(tokens[0].token_type, TokenType::Error);
    assert_eq!(tokens[0].lexeme, "Unexpected character.");
    assert_eq!(tokens[1].token_type, TokenType::Number);
    assert_eq!(tokens[2].token_type, TokenType::Eof);
}

#[test]
fn comment_runs_to_end_of_line_only() {
    let tokens = scan_all("// first\nfor");
    assert_eq!(tokens[0].token_type, TokenType::For);
    assert_eq!(tokens[0].line, 2);
}

#[test]
fn newlines_count_while_skipping() {
    let tokens = scan_all("\n\n+");
    assert_eq!(tokens[0].token_type, TokenType::Plus);
    assert_eq!(tokens[0].line, 3);
}

#[test]
fn identifier_may_contain_underscores_and_digits() {
    let tokens = scan_all("a_b1");
    assert_eq!(tokens[0].token_type, TokenType::Identifier);
    assert_eq!(tokens[0].lexeme, "a_b1");
}

#[test]
fn slash_alone_is_a_token() {
    let kinds: Vec<TokenType> = scan_all("/ 2").iter().map(|t| t.token_type).collect();
    assert_eq!(kinds, vec![TokenType::Slash, TokenType::Number, TokenType::Eof]);
}

#[test]
fn token_type_names() {
    assert_eq!(TokenType::LeftParen.name(), "LEFT_PAREN");
    assert_eq!(TokenType::BangEqual.name(), "BANG_EQUAL");
    assert_eq!(TokenType::For.name(), "FOR");
    assert_eq!(TokenType::Error.name(), "ERROR");
    assert_eq!(TokenType::Eof.name(), "EOF");
}

#[test]
fn token_clone_copies_every_field() {
    let tokens = scan_all("for");
    let copy = tokens[0].clone();
    assert_eq!(copy.token_type, tokens[0].token_type);
    assert_eq!(copy.lexeme, tokens[0].lexeme);
    assert_eq!(copy.line, tokens[0].line);
}
