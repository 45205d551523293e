//! The lexical scanner: turns a source buffer into a forward-only sequence
//! of tokens, one `scan_token` call per token, with an infinite tail of
//! `Eof` tokens once the input is exhausted.
//!
//! The contracts are stated against a mathematical model of the scan: spec
//! functions over the source character sequence that say where skipping the
//! ignored input ends (`skip_from`), where each token class ends
//! (`ident_end`, `number_end`, `string_close`) and what one call produces
//! (`scan_spec`).

use vstd::prelude::*;
use vstd::string::StrSliceExecFns;

verus! {

// ---------------------------------------------------------------------
// Character classes
// ---------------------------------------------------------------------

/// What `char::is_alphabetic` returns for a character: membership in the
/// Unicode `Alphabetic` class. The result depends on the character alone,
/// so it is given a name rather than a transcription of the Unicode table.
pub uninterp spec fn char_alphabetic(c: char) -> bool;

/// What `char::is_alphanumeric` returns for a character: `Alphabetic` or
/// one of the Unicode number classes. As with `char_alphabetic`, named, not
/// transcribed.
pub uninterp spec fn char_alphanumeric(c: char) -> bool;

/// An ASCII letter, `a` to `z` or `A` to `Z`.
pub open spec fn is_ascii_letter(c: char) -> bool {
    (97 <= (c as u32) && (c as u32) <= 122) || (65 <= (c as u32) && (c as u32) <= 90)
}

/// Relies on `char::is_alphabetic`: classifies by the Unicode table; the
/// result is a function of the character alone. Among ASCII characters,
/// the documentation fixes the class exactly: the letters `a` to `z` and
/// `A` to `Z` are `Alphabetic`, and no other ASCII character is.
pub assume_specification[ char::is_alphabetic ](c: char) -> (r: bool)
    ensures
        r == char_alphabetic(c),
        (c as u32) < 128 ==> r == is_ascii_letter(c),
;

/// Relies on `char::is_alphanumeric`: classifies by the Unicode table —
/// `Alphabetic` or one of the number classes; the result is a function of
/// the character alone. Among ASCII characters the class is exactly the
/// letters and the decimal digits.
pub assume_specification[ char::is_alphanumeric ](c: char) -> (r: bool)
    ensures
        r == char_alphanumeric(c),
        (c as u32) < 128 ==> r == (is_ascii_letter(c) || is_digit(c)),
;

/// A blank skipped before a token without affecting the line counter.
pub open spec fn is_blank(c: char) -> bool {
    c == ' ' || c == '\r' || c == '\t'
}

/// An ASCII decimal digit.
pub open spec fn is_digit(c: char) -> bool {
    48 <= (c as u32) && (c as u32) <= 57
}

/// A character that may continue an identifier.
pub open spec fn is_ident_char(c: char) -> bool {
    char_alphanumeric(c) || c == '_'
}

/// Exec test for an ASCII decimal digit.
fn ascii_digit(c: char) -> (r: bool)
    ensures
        r == is_digit(c),
{
    let u = c as u32;
    48 <= u && u <= 57
}

// ---------------------------------------------------------------------
// The model of one scan
// ---------------------------------------------------------------------

/// The character at `i`, or NUL past the end — the scanner's sentinel for
/// absent lookahead.
pub open spec fn char_at(s: Seq<char>, i: int) -> char {
    if 0 <= i < s.len() {
        s[i]
    } else {
        '\0'
    }
}

/// Cursor and line counter after skipping blanks, newlines and `//` line
/// comments, starting at `i` with line counter `line`; `in_comment` tells
/// whether the cursor currently stands inside a line comment. Newlines met
/// while skipping bump the line counter; a comment runs to the end of its
/// line, not across it.
pub open spec fn skip_from(s: Seq<char>, i: int, line: int, in_comment: bool) -> (int, int)
    recommends
        0 <= i <= s.len(),
    decreases s.len() - i,
{
    if i >= s.len() {
        (i, line)
    } else if in_comment {
        if s[i] == '\n' {
            skip_from(s, i + 1, line + 1, false)
        } else {
            skip_from(s, i + 1, line, true)
        }
    } else if is_blank(s[i]) {
        skip_from(s, i + 1, line, false)
    } else if s[i] == '\n' {
        skip_from(s, i + 1, line + 1, false)
    } else if s[i] == '/' && i + 1 < s.len() && s[i + 1] == '/' {
        skip_from(s, i + 2, line, true)
    } else {
        (i, line)
    }
}

/// Skipping never rewinds, never passes the end, and bumps the line counter
/// at most once per character consumed.
pub proof fn lemma_skip_bounds(s: Seq<char>, i: int, line: int, in_comment: bool)
    requires
        0 <= i <= s.len(),
    ensures
        i <= skip_from(s, i, line, in_comment).0 <= s.len(),
        line <= skip_from(s, i, line, in_comment).1,
        skip_from(s, i, line, in_comment).1 - line <= skip_from(s, i, line, in_comment).0 - i,
    decreases s.len() - i,
{
    if i >= s.len() {
    } else if in_comment {
        if s[i] == '\n' {
            lemma_skip_bounds(s, i + 1, line + 1, false);
        } else {
            lemma_skip_bounds(s, i + 1, line, true);
        }
    } else if is_blank(s[i]) {
        lemma_skip_bounds(s, i + 1, line, false);
    } else if s[i] == '\n' {
        lemma_skip_bounds(s, i + 1, line + 1, false);
    } else if s[i] == '/' && i + 1 < s.len() && s[i + 1] == '/' {
        lemma_skip_bounds(s, i + 2, line, true);
    } else {
    }
}

/// The first position at or after `i` that does not continue an
/// identifier.
pub open spec fn ident_end(s: Seq<char>, i: int) -> int
    recommends
        0 <= i <= s.len(),
    decreases s.len() - i,
{
    if i < s.len() && is_ident_char(s[i]) {
        ident_end(s, i + 1)
    } else {
        i
    }
}

pub proof fn lemma_ident_end_bounds(s: Seq<char>, i: int)
    requires
        0 <= i <= s.len(),
    ensures
        i <= ident_end(s, i) <= s.len(),
    decreases s.len() - i,
{
    if i < s.len() && is_ident_char(s[i]) {
        lemma_ident_end_bounds(s, i + 1);
    }
}

/// The first position at or after `i` that is not an ASCII digit.
pub open spec fn digits_end(s: Seq<char>, i: int) -> int
    recommends
        0 <= i <= s.len(),
    decreases s.len() - i,
{
    if i < s.len() && is_digit(s[i]) {
        digits_end(s, i + 1)
    } else {
        i
    }
}

pub proof fn lemma_digits_end_bounds(s: Seq<char>, i: int)
    requires
        0 <= i <= s.len(),
    ensures
        i <= digits_end(s, i) <= s.len(),
    decreases s.len() - i,
{
    if i < s.len() && is_digit(s[i]) {
        lemma_digits_end_bounds(s, i + 1);
    }
}

/// The end of a number token whose digits start at `i`: the integer
/// digits, then one `.` only when at least one digit follows it, then the
/// fractional digits.
pub open spec fn number_end(s: Seq<char>, i: int) -> int
    recommends
        0 <= i <= s.len(),
{
    let d = digits_end(s, i);
    if d < s.len() && s[d] == '.' && d + 1 < s.len() && is_digit(s[d + 1]) {
        digits_end(s, d + 1)
    } else {
        d
    }
}

pub proof fn lemma_number_end_bounds(s: Seq<char>, i: int)
    requires
        0 <= i <= s.len(),
    ensures
        i <= number_end(s, i) <= s.len(),
{
    lemma_digits_end_bounds(s, i);
    let d = digits_end(s, i);
    if d < s.len() && s[d] == '.' && d + 1 < s.len() && is_digit(s[d + 1]) {
        lemma_digits_end_bounds(s, d + 1);
    }
}

/// The position of the closing quote at or after `i`, or the source length
/// when the string never closes.
pub open spec fn string_close(s: Seq<char>, i: int) -> int
    recommends
        0 <= i <= s.len(),
    decreases s.len() - i,
{
    if i < s.len() && s[i] != '"' {
        string_close(s, i + 1)
    } else {
        i
    }
}

pub proof fn lemma_string_close_bounds(s: Seq<char>, i: int)
    requires
        0 <= i <= s.len(),
    ensures
        i <= string_close(s, i) <= s.len(),
    decreases s.len() - i,
{
    if i < s.len() && s[i] != '"' {
        lemma_string_close_bounds(s, i + 1);
    }
}

/// How many newlines `s` holds in positions `i` (inclusive) to `j`
/// (exclusive).
pub open spec fn count_nl(s: Seq<char>, i: int, j: int) -> int
    decreases j - i,
{
    if i < j {
        (if 0 <= i < s.len() && s[i] == '\n' {
            1int
        } else {
            0int
        }) + count_nl(s, i + 1, j)
    } else {
        0
    }
}

/// Extending the counted range by one character on the right adds that
/// character's contribution.
pub proof fn lemma_count_nl_snoc(s: Seq<char>, i: int, j: int)
    requires
        i <= j,
    ensures
        count_nl(s, i, j + 1) == count_nl(s, i, j) + (if 0 <= j < s.len() && s[j] == '\n' {
            1int
        } else {
            0int
        }),
    decreases j - i,
{
    if i < j {
        lemma_count_nl_snoc(s, i + 1, j);
    } else {
        assert(count_nl(s, i + 1, j + 1) == 0);
    }
}

pub proof fn lemma_count_nl_bounds(s: Seq<char>, i: int, j: int)
    requires
        i <= j,
    ensures
        0 <= count_nl(s, i, j) <= j - i,
    decreases j - i,
{
    if i < j {
        lemma_count_nl_bounds(s, i + 1, j);
    }
}

/// The token kind of an identifier lexeme: the matching keyword, or
/// `Identifier` when it matches none exactly — a keyword match needs the
/// exact length, not a prefix. Stated, like the keyword table itself, by
/// first-character dispatch.
pub open spec fn keyword_kind(lex: Seq<char>) -> TokenType {
    if lex.len() == 0 {
        TokenType::Identifier
    } else if lex[0] == 'a' {
        if lex == seq!['a', 'n', 'd'] {
            TokenType::And
        } else {
            TokenType::Identifier
        }
    } else if lex[0] == 'c' {
        if lex == seq!['c', 'l', 'a', 's', 's'] {
            TokenType::Class
        } else {
            TokenType::Identifier
        }
    } else if lex[0] == 'e' {
        if lex == seq!['e', 'l', 's', 'e'] {
            TokenType::Else
        } else {
            TokenType::Identifier
        }
    } else if lex[0] == 'f' {
        if lex == seq!['f', 'a', 'l', 's', 'e'] {
            TokenType::False
        } else if lex == seq!['f', 'o', 'r'] {
            TokenType::For
        } else if lex == seq!['f', 'u', 'n'] {
            TokenType::Fun
        } else {
            TokenType::Identifier
        }
    } else if lex[0] == 'i' {
        if lex == seq!['i', 'f'] {
            TokenType::If
        } else {
            TokenType::Identifier
        }
    } else if lex[0] == 'n' {
        if lex == seq!['n', 'i', 'l'] {
            TokenType::Nil
        } else {
            TokenType::Identifier
        }
    } else if lex[0] == 'o' {
        if lex == seq!['o', 'r'] {
            TokenType::Or
        } else {
            TokenType::Identifier
        }
    } else if lex[0] == 'p' {
        if lex == seq!['p', 'r', 'i', 'n', 't'] {
            TokenType::Print
        } else {
            TokenType::Identifier
        }
    } else if lex[0] == 'r' {
        if lex == seq!['r', 'e', 't', 'u', 'r', 'n'] {
            TokenType::Return
        } else {
            TokenType::Identifier
        }
    } else if lex[0] == 's' {
        if lex == seq!['s', 'u', 'p', 'e', 'r'] {
            TokenType::Super
        } else {
            TokenType::Identifier
        }
    } else if lex[0] == 't' {
        if lex == seq!['t', 'h', 'i', 's'] {
            TokenType::This
        } else if lex == seq!['t', 'r', 'u', 'e'] {
            TokenType::True
        } else {
            TokenType::Identifier
        }
    } else if lex[0] == 'v' {
        if lex == seq!['v', 'a', 'r'] {
            TokenType::Var
        } else {
            TokenType::Identifier
        }
    } else if lex[0] == 'w' {
        if lex == seq!['w', 'h', 'i', 'l', 'e'] {
            TokenType::While
        } else {
            TokenType::Identifier
        }
    } else {
        TokenType::Identifier
    }
}

/// Everything one `scan_token` call determines: the token's kind, text and
/// line, and where the scanner's start, cursor and line counter end up.
pub ghost struct Scanned {
    pub kind: TokenType,
    pub lexeme: Seq<char>,
    pub token_line: int,
    pub start: int,
    pub end: int,
    pub line_after: int,
}

/// A token of one character beginning at `p`.
pub open spec fn one_char_token(s: Seq<char>, p: int, l: int, kind: TokenType) -> Scanned {
    Scanned {
        kind,
        lexeme: s.subrange(p, p + 1),
        token_line: l,
        start: p,
        end: p + 1,
        line_after: l,
    }
}

/// A token of two characters beginning at `p`.
pub open spec fn two_char_token(s: Seq<char>, p: int, l: int, kind: TokenType) -> Scanned {
    Scanned {
        kind,
        lexeme: s.subrange(p, p + 2),
        token_line: l,
        start: p,
        end: p + 2,
        line_after: l,
    }
}

/// What scanning produces once the ignored input before the token has been
/// skipped: `p` is the token's start position, `l` the line counter there.
pub open spec fn scan_after_skip(s: Seq<char>, p: int, l: int) -> Scanned
    recommends
        0 <= p <= s.len(),
{
    if p >= s.len() {
        Scanned {
            kind: TokenType::Eof,
            lexeme: Seq::<char>::empty(),
            token_line: l,
            start: p,
            end: p,
            line_after: l,
        }
    } else {
        let c = s[p];
        if char_alphabetic(c) {
            let e = ident_end(s, p + 1);
            Scanned {
                kind: keyword_kind(s.subrange(p, e)),
                lexeme: s.subrange(p, e),
                token_line: l,
                start: p,
                end: e,
                line_after: l,
            }
        } else if is_digit(c) {
            let e = number_end(s, p + 1);
            Scanned {
                kind: TokenType::Number,
                lexeme: s.subrange(p, e),
                token_line: l,
                start: p,
                end: e,
                line_after: l,
            }
        } else if c == '"' {
            // The token's line is the counter at the opening quote;
            // embedded newlines advance the counter only for what follows.
            let close = string_close(s, p + 1);
            let nl = count_nl(s, p + 1, close);
            if close >= s.len() {
                Scanned {
                    kind: TokenType::Error,
                    lexeme: "Unterminated string."@,
                    token_line: l,
                    start: p,
                    end: close,
                    line_after: l + nl,
                }
            } else {
                Scanned {
                    kind: TokenType::String,
                    lexeme: s.subrange(p, close + 1),
                    token_line: l,
                    start: p,
                    end: close + 1,
                    line_after: l + nl,
                }
            }
        } else if c == '(' {
            one_char_token(s, p, l, TokenType::LeftParen)
        } else if c == ')' {
            one_char_token(s, p, l, TokenType::RightParen)
        } else if c == '{' {
            one_char_token(s, p, l, TokenType::LeftBrace)
        } else if c == '}' {
            one_char_token(s, p, l, TokenType::RightBrace)
        } else if c == ';' {
            one_char_token(s, p, l, TokenType::Semicolon)
        } else if c == ',' {
            one_char_token(s, p, l, TokenType::Comma)
        } else if c == '.' {
            one_char_token(s, p, l, TokenType::Dot)
        } else if c == '-' {
            one_char_token(s, p, l, TokenType::Minus)
        } else if c == '+' {
            one_char_token(s, p, l, TokenType::Plus)
        } else if c == '/' {
            one_char_token(s, p, l, TokenType::Slash)
        } else if c == '*' {
            one_char_token(s, p, l, TokenType::Star)
        } else if c == '!' {
            if p + 1 < s.len() && s[p + 1] == '=' {
                two_char_token(s, p, l, TokenType::BangEqual)
            } else {
                one_char_token(s, p, l, TokenType::Bang)
            }
        } else if c == '=' {
            if p + 1 < s.len() && s[p + 1] == '=' {
                two_char_token(s, p, l, TokenType::EqualEqual)
            } else {
                one_char_token(s, p, l, TokenType::Equal)
            }
        } else if c == '<' {
            if p + 1 < s.len() && s[p + 1] == '=' {
                two_char_token(s, p, l, TokenType::LessEqual)
            } else {
                one_char_token(s, p, l, TokenType::Less)
            }
        } else if c == '>' {
            if p + 1 < s.len() && s[p + 1] == '=' {
                two_char_token(s, p, l, TokenType::GreaterEqual)
            } else {
                one_char_token(s, p, l, TokenType::Greater)
            }
        } else {
            Scanned {
                kind: TokenType::Error,
                lexeme: "Unexpected character."@,
                token_line: l,
                start: p,
                end: p + 1,
                line_after: l,
            }
        }
    }
}

/// What one `scan_token` call produces from cursor `i` with line counter
/// `line`: skip the ignored input, then scan one token.
pub open spec fn scan_spec(s: Seq<char>, i: int, line: int) -> Scanned {
    let (p, l) = skip_from(s, i, line, false);
    scan_after_skip(s, p, l)
}

// ---------------------------------------------------------------------
// Tokens
// ---------------------------------------------------------------------

/// The fixed set of lexical categories.
#[derive(Debug, Clone, Copy, PartialEq, Eq, Structural)]
pub enum TokenType {
    LeftParen,
    RightParen,
    LeftBrace,
    RightBrace,
    Comma,
    Dot,
    Minus,
    Plus,
    Semicolon,
    Slash,
    Star,
    Bang,
    BangEqual,
    Equal,
    EqualEqual,
    Greater,
    GreaterEqual,
    Less,
    LessEqual,
    Identifier,
    String,
    Number,
    And,
    Class,
    Else,
    False,
    Fun,
    For,
    If,
    Nil,
    Or,
    Print,
    Return,
    Super,
    This,
    True,
    Var,
    While,
    Error,
    Eof,
}

/// The display name of a token kind.
pub open spec fn token_type_name(t: TokenType) -> Seq<char> {
    match t {
        TokenType::LeftParen => "LEFT_PAREN"@,
        TokenType::RightParen => "RIGHT_PAREN"@,
        TokenType::LeftBrace => "LEFT_BRACE"@,
        TokenType::RightBrace => "RIGHT_BRACE"@,
        TokenType::Comma => "COMMA"@,
        TokenType::Dot => "DOT"@,
        TokenType::Minus => "MINUS"@,
        TokenType::Plus => "PLUS"@,
        TokenType::Semicolon => "SEMICOLON"@,
        TokenType::Slash => "SLASH"@,
        TokenType::Star => "STAR"@,
        TokenType::Bang => "BANG"@,
        TokenType::BangEqual => "BANG_EQUAL"@,
        TokenType::Equal => "EQUAL"@,
        TokenType::EqualEqual => "EQUAL_EQUAL"@,
        TokenType::Greater => "GREATER"@,
        TokenType::GreaterEqual => "GREATER_EQUAL"@,
        TokenType::Less => "LESS"@,
        TokenType::LessEqual => "LESS_EQUAL"@,
        TokenType::Identifier => "IDENTIFIER"@,
        TokenType::String => "STRING"@,
        TokenType::Number => "NUMBER"@,
        TokenType::And => "AND"@,
        TokenType::Class => "CLASS"@,
        TokenType::Else => "ELSE"@,
        TokenType::False => "FALSE"@,
        TokenType::Fun => "FUN"@,
        TokenType::For => "FOR"@,
        TokenType::If => "IF"@,
        TokenType::Nil => "NIL"@,
        TokenType::Or => "OR"@,
        TokenType::Print => "PRINT"@,
        TokenType::Return => "RETURN"@,
        TokenType::Super => "SUPER"@,
        TokenType::This => "THIS"@,
        TokenType::True => "TRUE"@,
        TokenType::Var => "VAR"@,
        TokenType::While => "WHILE"@,
        TokenType::Error => "ERROR"@,
        TokenType::Eof => "EOF"@,
    }
}

impl TokenType {
    /// The display name of this token kind.
    pub fn name(&self) -> (s: String)
        ensures
            s@ == token_type_name(*self),
    {
        match self {
            TokenType::LeftParen => "LEFT_PAREN".to_owned(),
            TokenType::RightParen => "RIGHT_PAREN".to_owned(),
            TokenType::LeftBrace => "LEFT_BRACE".to_owned(),
            TokenType::RightBrace => "RIGHT_BRACE".to_owned(),
            TokenType::Comma => "COMMA".to_owned(),
            TokenType::Dot => "DOT".to_owned(),
            TokenType::Minus => "MINUS".to_owned(),
            TokenType::Plus => "PLUS".to_owned(),
            TokenType::Semicolon => "SEMICOLON".to_owned(),
            TokenType::Slash => "SLASH".to_owned(),
            TokenType::Star => "STAR".to_owned(),
            TokenType::Bang => "BANG".to_owned(),
            TokenType::BangEqual => "BANG_EQUAL".to_owned(),
            TokenType::Equal => "EQUAL".to_owned(),
            TokenType::EqualEqual => "EQUAL_EQUAL".to_owned(),
            TokenType::Greater => "GREATER".to_owned(),
            TokenType::GreaterEqual => "GREATER_EQUAL".to_owned(),
            TokenType::Less => "LESS".to_owned(),
            TokenType::LessEqual => "LESS_EQUAL".to_owned(),
            TokenType::Identifier => "IDENTIFIER".to_owned(),
            TokenType::String => "STRING".to_owned(),
            TokenType::Number => "NUMBER".to_owned(),
            TokenType::And => "AND".to_owned(),
            TokenType::Class => "CLASS".to_owned(),
            TokenType::Else => "ELSE".to_owned(),
            TokenType::False => "FALSE".to_owned(),
            TokenType::Fun => "FUN".to_owned(),
            TokenType::For => "FOR".to_owned(),
            TokenType::If => "IF".to_owned(),
            TokenType::Nil => "NIL".to_owned(),
            TokenType::Or => "OR".to_owned(),
            TokenType::Print => "PRINT".to_owned(),
            TokenType::Return => "RETURN".to_owned(),
            TokenType::Super => "SUPER".to_owned(),
            TokenType::This => "THIS".to_owned(),
            TokenType::True => "TRUE".to_owned(),
            TokenType::Var => "VAR".to_owned(),
            TokenType::While => "WHILE".to_owned(),
            TokenType::Error => "ERROR".to_owned(),
            TokenType::Eof => "EOF".to_owned(),
        }
    }
}

/// The mathematical content of a token.
pub ghost struct TokenModel {
    pub kind: TokenType,
    pub lexeme: Seq<char>,
    pub line: int,
}

/// One lexical unit: its category, the exact source substring (or, for
/// `Error` tokens, the error message), and the 1-based source line the
/// token begins on. Immutable once produced.
pub struct Token {
    pub token_type: TokenType,
    pub lexeme: String,
    pub line: usize,
}

impl View for Token {
    type V = TokenModel;

    open spec fn view(&self) -> TokenModel {
        TokenModel { kind: self.token_type, lexeme: self.lexeme@, line: self.line as int }
    }
}

impl Clone for Token {
    /// An exact copy, field by field.
    fn clone(&self) -> (t: Self)
        ensures
            t.token_type == self.token_type,
            t.lexeme@ == self.lexeme@,
            t.line == self.line,
    {
        Token { token_type: self.token_type, lexeme: self.lexeme.clone(), line: self.line }
    }
}

// ---------------------------------------------------------------------
// The scanner
// ---------------------------------------------------------------------

/// The scanner's observable state: the source characters, the current
/// token's start, the cursor, and the 1-based line counter.
pub ghost struct ScanState {
    pub source: Seq<char>,
    pub start: int,
    pub current: int,
    pub line: int,
}

/// A cursor over a source buffer. `scan_token` returns exactly one token
/// per call; after exhaustion every further call returns `Eof`.
pub struct Scanner {
    text: String,
    source: Vec<char>,
    start: usize,
    current: usize,
    line: usize,
}

impl View for Scanner {
    type V = ScanState;

    closed spec fn view(&self) -> ScanState {
        ScanState {
            source: self.source@,
            start: self.start as int,
            current: self.current as int,
            line: self.line as int,
        }
    }
}

impl Scanner {
    /// The scanner's internal invariant: the cursor never leaves the
    /// buffer, the token start never passes the cursor, the line counter
    /// stays 1-based and can only have been bumped by consumed characters,
    /// and the retained text agrees with the character buffer.
    pub closed spec fn wf(&self) -> bool {
        &&& self.start <= self.current <= self.source@.len()
        &&& self.text@ == self.source@
        &&& 1 <= self.line
        &&& self.line <= self.current + 1
        &&& self.source@.len() < usize::MAX
    }

    /// A scanner at the start of `source`, on line 1.
    ///
    /// The length bound is a machine limit: the line counter, bumped at
    /// most once per consumed character, must fit in `usize`.
    pub fn new(source: &str) -> (s: Self)
        requires
            source@.len() < usize::MAX,
        ensures
            s.wf(),
            s@.source == source@,
            s@.start == 0,
            s@.current == 0,
            s@.line == 1,
    {
        let n = source.unicode_len();
        let mut chars: Vec<char> = Vec::new();
        let mut i: usize = 0;
        while i < n
            invariant
                n == source@.len(),
                i <= n,
                chars@ == source@.subrange(0, i as int),
            decreases n - i,
        {
            chars.push(source.get_char(i));
            proof {
                assert(chars@ =~= source@.subrange(0, i + 1));
            }
            i = i + 1;
        }
        proof {
            assert(chars@ =~= source@);
        }
        Scanner { text: source.to_owned(), source: chars, start: 0, current: 0, line: 1 }
    }

    /// The character under the cursor, or NUL at the end of the buffer.
    fn current(&self) -> (c: char)
        requires
            self.wf(),
        ensures
            c == char_at(self@.source, self@.current),
    {
        if self.is_at_end() {
            '\0'
        } else {
            self.source[self.current]
        }
    }

    /// The character one past the cursor, or `None` when that position is
    /// past the end — lookahead never reads past the buffer.
    fn peek(&self) -> (r: Option<char>)
        requires
            self.wf(),
        ensures
            r == (if self@.current + 1 < self@.source.len() {
                Some(self@.source[self@.current + 1])
            } else {
                None::<char>
            }),
    {
        if self.current >= usize::MAX - 1 || self.current + 1 >= self.source.len() {
            None
        } else {
            Some(self.source[self.current + 1])
        }
    }

    /// Whether the cursor has passed the last character.
    fn is_at_end(&self) -> (r: bool)
        requires
            self.wf(),
        ensures
            r == (self@.current >= self@.source.len()),
    {
        self.current >= self.source.len()
    }

    /// Consumes and returns the character under the cursor.
    fn advance(&mut self) -> (c: char)
        requires
            old(self).wf(),
            old(self)@.current < old(self)@.source.len(),
        ensures
            final(self).wf(),
            final(self)@.source == old(self)@.source,
            final(self)@.start == old(self)@.start,
            final(self)@.line == old(self)@.line,
            final(self)@.current == old(self)@.current + 1,
            c == old(self)@.source[old(self)@.current],
    {
        self.current = self.current + 1;
        self.source[self.current - 1]
    }

    /// Consumes the character under the cursor only when it is `expected`;
    /// reports whether it did.
    fn match_and_advance(&mut self, expected: char) -> (r: bool)
        requires
            old(self).wf(),
        ensures
            final(self).wf(),
            r == (old(self)@.current < old(self)@.source.len() && old(self)@.source[old(
                self,
            )@.current] == expected),
            final(self)@.source == old(self)@.source,
            final(self)@.start == old(self)@.start,
            final(self)@.line == old(self)@.line,
            final(self)@.current == (if r {
                old(self)@.current + 1
            } else {
                old(self)@.current
            }),
    {
        if self.is_at_end() {
            return false;
        }
        if self.source[self.current] != expected {
            return false;
        }
        self.current = self.current + 1;
        true
    }

    /// The source text between the token start and the cursor.
    fn get_text(&self) -> (s: String)
        requires
            self.wf(),
        ensures
            s@ == self@.source.subrange(self@.start, self@.current),
    {
        self.text.as_str().substring_char(self.start, self.current).to_owned()
    }

    /// A token of the given kind whose text is the current lexeme and whose
    /// line is the current line counter.
    fn make_token(&self, token_type: TokenType) -> (t: Token)
        requires
            self.wf(),
        ensures
            t.token_type == token_type,
            t.lexeme@ == self@.source.subrange(self@.start, self@.current),
            t.line == self@.line,
    {
        Token { token_type, lexeme: self.get_text(), line: self.line }
    }

    /// An `Error` token carrying `message` as its text.
    fn error_token(&self, message: &str) -> (t: Token)
        requires
            self.wf(),
        ensures
            t.token_type == TokenType::Error,
            t.lexeme@ == message@,
            t.line == self@.line,
    {
        Token { token_type: TokenType::Error, lexeme: message.to_owned(), line: self.line }
    }

    /// Skips blanks, newlines and `//` comments, bumping the line counter
    /// at each newline. Runs once before each token, not per character of
    /// a token.
    fn skip_ignored(&mut self)
        requires
            old(self).wf(),
        ensures
            final(self).wf(),
            final(self)@.source == old(self)@.source,
            final(self)@.start == old(self)@.start,
            final(self)@.current == skip_from(
                old(self)@.source,
                old(self)@.current,
                old(self)@.line,
                false,
            ).0,
            final(self)@.line == skip_from(
                old(self)@.source,
                old(self)@.current,
                old(self)@.line,
                false,
            ).1,
    {
        let ghost s0 = old(self)@;
        let ghost goal = skip_from(s0.source, s0.current, s0.line, false);
        proof {
            lemma_skip_bounds(s0.source, s0.current, s0.line, false);
        }
        loop
            invariant
                self.wf(),
                self@.source == s0.source,
                self@.start == s0.start,
                s0.current <= self@.current,
                skip_from(self@.source, self@.current, self@.line, false) == goal,
            ensures
                skip_from(self@.source, self@.current, self@.line, false) == (
                self@.current,
                self@.line,
                ),
            decreases self@.source.len() - self@.current,
        {
            let c = self.current();
            if c == ' ' || c == '\r' || c == '\t' {
                self.advance();
            } else if c == '\n' {
                self.advance();
                self.line = self.line + 1;
            } else if c == '/' {
                let next = self.peek();
                if next == Some('/') {
                    // Consume both slashes, then the rest of the comment;
                    // the newline that ends it is left for the next
                    // iteration, which counts it.
                    self.advance();
                    self.advance();
                    let ghost entry = self@.current;
                    proof {
                        assert(skip_from(self@.source, self@.current, self@.line, true) == goal);
                    }
                    loop
                        invariant
                            self.wf(),
                            self@.source == s0.source,
                            self@.start == s0.start,
                            entry <= self@.current,
                            self@.line >= 1,
                            skip_from(self@.source, self@.current, self@.line, true) == goal,
                        ensures
                            self@.current >= self@.source.len() || self@.source[self@.current]
                                == '\n',
                        decreases self@.source.len() - self@.current,
                    {
                        if self.is_at_end() {
                            break ;
                        }
                        if self.current() == '\n' {
                            break ;
                        }
                        self.advance();
                    }
                    proof {
                        if self@.current < self@.source.len() {
                            assert(skip_from(self@.source, self@.current, self@.line, false)
                                == goal);
                        }
                    }
                } else {
                    proof {
                        assert(skip_from(self@.source, self@.current, self@.line, false) == (
                        self@.current,
                        self@.line,
                        ));
                    }
                    break ;
                }
            } else {
                proof {
                    assert(skip_from(self@.source, self@.current, self@.line, false) == (
                    self@.current,
                    self@.line,
                    ));
                }
                break ;
            }
        }
    }

    /// Scans the remainder of an identifier and resolves it against the
    /// keyword table.
    fn identifier(&mut self) -> (t: Token)
        requires
            old(self).wf(),
            old(self)@.start < old(self)@.current,
        ensures
            final(self).wf(),
            final(self)@.source == old(self)@.source,
            final(self)@.start == old(self)@.start,
            final(self)@.line == old(self)@.line,
            final(self)@.current == ident_end(old(self)@.source, old(self)@.current),
            t.token_type == keyword_kind(
                old(self)@.source.subrange(
                    old(self)@.start,
                    ident_end(old(self)@.source, old(self)@.current),
                ),
            ),
            t.lexeme@ == old(self)@.source.subrange(
                old(self)@.start,
                ident_end(old(self)@.source, old(self)@.current),
            ),
            t.line == old(self)@.line,
    {
        let ghost s0 = old(self)@;
        proof {
            lemma_ident_end_bounds(s0.source, s0.current);
        }
        loop
            invariant
                self.wf(),
                self@.source == s0.source,
                self@.start == s0.start,
                self@.line == s0.line,
                s0.current <= self@.current,
                s0.start < self@.current,
                ident_end(self@.source, self@.current) == ident_end(s0.source, s0.current),
            ensures
                self@.current >= self@.source.len() || !is_ident_char(
                    self@.source[self@.current],
                ),
            decreases self@.source.len() - self@.current,
        {
            if self.is_at_end() {
                break ;
            }
            let c = self.current();
            if !self.is_alphanumeric(c) {
                break ;
            }
            self.advance();
        }
        proof {
            assert(ident_end(self@.source, self@.current) == self@.current);
        }
        let tt = self.identifier_type();
        self.make_token(tt)
    }

    /// Whether `c` may continue an identifier: Unicode alphanumeric, or an
    /// underscore.
    fn is_alphanumeric(&self, c: char) -> (r: bool)
        ensures
            r == is_ident_char(c),
    {
        c.is_alphanumeric() || c == '_'
    }

    /// Resolves the current lexeme against the keyword table by
    /// first-character dispatch with exact length and suffix checks;
    /// anything unmatched is an identifier.
    fn identifier_type(&self) -> (tt: TokenType)
        requires
            self.wf(),
            self@.start < self@.current,
        ensures
            tt == keyword_kind(self@.source.subrange(self@.start, self@.current)),
    {
        let ghost lex = self@.source.subrange(self@.start, self@.current);
        let st = self.start;
        let len = self.current - self.start;
        let c0 = self.source[st];
        proof {
            assert(c0 == lex[0]);
            assert(lex.len() == len);
        }
        match c0 {
            'a' => {
                if len == 3 && self.source[st + 1] == 'n' && self.source[st + 2] == 'd' {
                    proof {
                        assert(lex =~= seq!['a', 'n', 'd']);
                    }
                    TokenType::And
                } else {
                    proof {
                        if lex == seq!['a', 'n', 'd'] {
                            assert(lex[1] == 'n' && lex[2] == 'd');
                        }
                    }
                    TokenType::Identifier
                }
            },
            'c' => {
                if len == 5 && self.source[st + 1] == 'l' && self.source[st + 2] == 'a'
                    && self.source[st + 3] == 's' && self.source[st + 4] == 's' {
                    proof {
                        assert(lex =~= seq!['c', 'l', 'a', 's', 's']);
                    }
                    TokenType::Class
                } else {
                    proof {
                        if lex == seq!['c', 'l', 'a', 's', 's'] {
                            assert(lex[1] == 'l' && lex[2] == 'a' && lex[3] == 's' && lex[4]
                                == 's');
                        }
                    }
                    TokenType::Identifier
                }
            },
            'e' => {
                if len == 4 && self.source[st + 1] == 'l' && self.source[st + 2] == 's'
                    && self.source[st + 3] == 'e' {
                    proof {
                        assert(lex =~= seq!['e', 'l', 's', 'e']);
                    }
                    TokenType::Else
                } else {
                    proof {
                        if lex == seq!['e', 'l', 's', 'e'] {
                            assert(lex[1] == 'l' && lex[2] == 's' && lex[3] == 'e');
                        }
                    }
                    TokenType::Identifier
                }
            },
            'f' => {
                if len > 1 {
                    match self.source[st + 1] {
                        'a' => {
                            if len == 5 && self.source[st + 2] == 'l' && self.source[st + 3] == 's'
                                && self.source[st + 4] == 'e' {
                                proof {
                                    assert(lex =~= seq!['f', 'a', 'l', 's', 'e']);
                                }
                                TokenType::False
                            } else {
                                proof {
                                    assert(lex[1] == 'a');
                                    if lex == seq!['f', 'a', 'l', 's', 'e'] {
                                        assert(lex[2] == 'l' && lex[3] == 's' && lex[4] == 'e');
                                    }
                                    if lex == seq!['f', 'o', 'r'] {
                                        assert(lex[1] == 'o');
                                    }
                                    if lex == seq!['f', 'u', 'n'] {
                                        assert(lex[1] == 'u');
                                    }
                                }
                                TokenType::Identifier
                            }
                        },
                        'o' => {
                            if len == 3 && self.source[st + 2] == 'r' {
                                proof {
                                    assert(lex =~= seq!['f', 'o', 'r']);
                                }
                                TokenType::For
                            } else {
                                proof {
                                    assert(lex[1] == 'o');
                                    if lex == seq!['f', 'a', 'l', 's', 'e'] {
                                        assert(lex[1] == 'a');
                                    }
                                    if lex == seq!['f', 'o', 'r'] {
                                        assert(lex[2] == 'r');
                                    }
                                    if lex == seq!['f', 'u', 'n'] {
                                        assert(lex[1] == 'u');
                                    }
                                }
                                TokenType::Identifier
                            }
                        },
                        'u' => {
                            if len == 3 && self.source[st + 2] == 'n' {
                                proof {
                                    assert(lex =~= seq!['f', 'u', 'n']);
                                }
                                TokenType::Fun
                            } else {
                                proof {
                                    assert(lex[1] == 'u');
                                    if lex == seq!['f', 'a', 'l', 's', 'e'] {
                                        assert(lex[1] == 'a');
                                    }
                                    if lex == seq!['f', 'o', 'r'] {
                                        assert(lex[1] == 'o');
                                    }
                                    if lex == seq!['f', 'u', 'n'] {
                                        assert(lex[2] == 'n');
                                    }
                                }
                                TokenType::Identifier
                            }
                        },
                        _ => {
                            proof {
                                if lex == seq!['f', 'a', 'l', 's', 'e'] {
                                    assert(lex[1] == 'a');
                                }
                                if lex == seq!['f', 'o', 'r'] {
                                    assert(lex[1] == 'o');
                                }
                                if lex == seq!['f', 'u', 'n'] {
                                    assert(lex[1] == 'u');
                                }
                            }
                            TokenType::Identifier
                        },
                    }
                } else {
                    proof {
                        if lex == seq!['f', 'a', 'l', 's', 'e'] {
                            assert(lex.len() == 5);
                        }
                        if lex == seq!['f', 'o', 'r'] {
                            assert(lex.len() == 3);
                        }
                        if lex == seq!['f', 'u', 'n'] {
                            assert(lex.len() == 3);
                        }
                    }
                    TokenType::Identifier
                }
            },
            'i' => {
                if len == 2 && self.source[st + 1] == 'f' {
                    proof {
                        assert(lex =~= seq!['i', 'f']);
                    }
                    TokenType::If
                } else {
                    proof {
                        if lex == seq!['i', 'f'] {
                            assert(lex[1] == 'f');
                        }
                    }
                    TokenType::Identifier
                }
            },
            'n' => {
                if len == 3 && self.source[st + 1] == 'i' && self.source[st + 2] == 'l' {
                    proof {
                        assert(lex =~= seq!['n', 'i', 'l']);
                    }
                    TokenType::Nil
                } else {
                    proof {
                        if lex == seq!['n', 'i', 'l'] {
                            assert(lex[1] == 'i' && lex[2] == 'l');
                        }
                    }
                    TokenType::Identifier
                }
            },
            'o' => {
                if len == 2 && self.source[st + 1] == 'r' {
                    proof {
                        assert(lex =~= seq!['o', 'r']);
                    }
                    TokenType::Or
                } else {
                    proof {
                        if lex == seq!['o', 'r'] {
                            assert(lex[1] == 'r');
                        }
                    }
                    TokenType::Identifier
                }
            },
            'p' => {
                if len == 5 && self.source[st + 1] == 'r' && self.source[st + 2] == 'i'
                    && self.source[st + 3] == 'n' && self.source[st + 4] == 't' {
                    proof {
                        assert(lex =~= seq!['p', 'r', 'i', 'n', 't']);
                    }
                    TokenType::Print
                } else {
                    proof {
                        if lex == seq!['p', 'r', 'i', 'n', 't'] {
                            assert(lex[1] == 'r' && lex[2] == 'i' && lex[3] == 'n' && lex[4]
                                == 't');
                        }
                    }
                    TokenType::Identifier
                }
            },
            'r' => {
                if len == 6 && self.source[st + 1] == 'e' && self.source[st + 2] == 't'
                    && self.source[st + 3] == 'u' && self.source[st + 4] == 'r' && self.source[st
                    + 5] == 'n' {
                    proof {
                        assert(lex =~= seq!['r', 'e', 't', 'u', 'r', 'n']);
                    }
                    TokenType::Return
                } else {
                    proof {
                        if lex == seq!['r', 'e', 't', 'u', 'r', 'n'] {
                            assert(lex[1] == 'e' && lex[2] == 't' && lex[3] == 'u' && lex[4] == 'r'
                                && lex[5] == 'n');
                        }
                    }
                    TokenType::Identifier
                }
            },
            's' => {
                if len == 5 && self.source[st + 1] == 'u' && self.source[st + 2] == 'p'
                    && self.source[st + 3] == 'e' && self.source[st + 4] == 'r' {
                    proof {
                        assert(lex =~= seq!['s', 'u', 'p', 'e', 'r']);
                    }
                    TokenType::Super
                } else {
                    proof {
                        if lex == seq!['s', 'u', 'p', 'e', 'r'] {
                            assert(lex[1] == 'u' && lex[2] == 'p' && lex[3] == 'e' && lex[4]
                                == 'r');
                        }
                    }
                    TokenType::Identifier
                }
            },
            't' => {
                if len > 1 {
                    match self.source[st + 1] {
                        'h' => {
                            if len == 4 && self.source[st + 2] == 'i' && self.source[st + 3]
                                == 's' {
                                proof {
                                    assert(lex =~= seq!['t', 'h', 'i', 's']);
                                }
                                TokenType::This
                            } else {
                                proof {
                                    assert(lex[1] == 'h');
                                    if lex == seq!['t', 'h', 'i', 's'] {
                                        assert(lex[2] == 'i' && lex[3] == 's');
                                    }
                                    if lex == seq!['t', 'r', 'u', 'e'] {
                                        assert(lex[1] == 'r');
                                    }
                                }
                                TokenType::Identifier
                            }
                        },
                        'r' => {
                            if len == 4 && self.source[st + 2] == 'u' && self.source[st + 3]
                                == 'e' {
                                proof {
                                    assert(lex =~= seq!['t', 'r', 'u', 'e']);
                                }
                                TokenType::True
                            } else {
                                proof {
                                    assert(lex[1] == 'r');
                                    if lex == seq!['t', 'h', 'i', 's'] {
                                        assert(lex[1] == 'h');
                                    }
                                    if lex == seq!['t', 'r', 'u', 'e'] {
                                        assert(lex[2] == 'u' && lex[3] == 'e');
                                    }
                                }
                                TokenType::Identifier
                            }
                        },
                        _ => {
                            proof {
                                if lex == seq!['t', 'h', 'i', 's'] {
                                    assert(lex[1] == 'h');
                                }
                                if lex == seq!['t', 'r', 'u', 'e'] {
                                    assert(lex[1] == 'r');
                                }
                            }
                            TokenType::Identifier
                        },
                    }
                } else {
                    proof {
                        if lex == seq!['t', 'h', 'i', 's'] {
                            assert(lex.len() == 4);
                        }
                        if lex == seq!['t', 'r', 'u', 'e'] {
                            assert(lex.len() == 4);
                        }
                    }
                    TokenType::Identifier
                }
            },
            'v' => {
                if len == 3 && self.source[st + 1] == 'a' && self.source[st + 2] == 'r' {
                    proof {
                        assert(lex =~= seq!['v', 'a', 'r']);
                    }
                    TokenType::Var
                } else {
                    proof {
                        if lex == seq!['v', 'a', 'r'] {
                            assert(lex[1] == 'a' && lex[2] == 'r');
                        }
                    }
                    TokenType::Identifier
                }
            },
            'w' => {
                if len == 5 && self.source[st + 1] == 'h' && self.source[st + 2] == 'i'
                    && self.source[st + 3] == 'l' && self.source[st + 4] == 'e' {
                    proof {
                        assert(lex =~= seq!['w', 'h', 'i', 'l', 'e']);
                    }
                    TokenType::While
                } else {
                    proof {
                        if lex == seq!['w', 'h', 'i', 'l', 'e'] {
                            assert(lex[1] == 'h' && lex[2] == 'i' && lex[3] == 'l' && lex[4]
                                == 'e');
                        }
                    }
                    TokenType::Identifier
                }
            },
            _ => TokenType::Identifier,
        }
    }

    /// Scans the remainder of a number: digits, then one `.` only when a
    /// digit follows it, then the fractional digits.
    fn number(&mut self) -> (t: Token)
        requires
            old(self).wf(),
            old(self)@.start < old(self)@.current,
        ensures
            final(self).wf(),
            final(self)@.source == old(self)@.source,
            final(self)@.start == old(self)@.start,
            final(self)@.line == old(self)@.line,
            final(self)@.current == number_end(old(self)@.source, old(self)@.current),
            t.token_type == TokenType::Number,
            t.lexeme@ == old(self)@.source.subrange(
                old(self)@.start,
                number_end(old(self)@.source, old(self)@.current),
            ),
            t.line == old(self)@.line,
    {
        let ghost s0 = old(self)@;
        proof {
            lemma_number_end_bounds(s0.source, s0.current);
            lemma_digits_end_bounds(s0.source, s0.current);
        }
        loop
            invariant
                self.wf(),
                self@.source == s0.source,
                self@.start == s0.start,
                self@.line == s0.line,
                s0.start < self@.current,
                digits_end(self@.source, self@.current) == digits_end(s0.source, s0.current),
            ensures
                self@.current >= self@.source.len() || !is_digit(self@.source[self@.current]),
            decreases self@.source.len() - self@.current,
        {
            let c = self.current();
            if !ascii_digit(c) {
                break ;
            }
            self.advance();
        }
        proof {
            assert(digits_end(self@.source, self@.current) == self@.current);
        }
        let ghost d = digits_end(s0.source, s0.current);
        // Look for a fractional part: one '.', only when a digit follows.
        if self.current() == '.' {
            if let Some(c) = self.peek() {
                if ascii_digit(c) {
                    // Consume the '.'.
                    self.advance();
                    proof {
                        lemma_digits_end_bounds(s0.source, d + 1);
                    }
                    loop
                        invariant
                            self.wf(),
                            self@.source == s0.source,
                            self@.start == s0.start,
                            self@.line == s0.line,
                            s0.start < self@.current,
                            digits_end(self@.source, self@.current) == digits_end(
                                s0.source,
                                d + 1,
                            ),
                        ensures
                            self@.current >= self@.source.len() || !is_digit(
                                self@.source[self@.current],
                            ),
                        decreases self@.source.len() - self@.current,
                    {
                        let c2 = self.current();
                        if !ascii_digit(c2) {
                            break ;
                        }
                        self.advance();
                    }
                    proof {
                        assert(digits_end(self@.source, self@.current) == self@.current);
                    }
                }
            }
        }
        self.make_token(TokenType::Number)
    }

    /// Scans to the closing quote. Embedded newlines advance the line
    /// counter, but the token — like every token — carries the line the
    /// counter stood at when the token began; an `Error` token when the
    /// input ends first.
    fn string(&mut self) -> (t: Token)
        requires
            old(self).wf(),
            old(self)@.start + 1 == old(self)@.current,
        ensures
            final(self).wf(),
            final(self)@.source == old(self)@.source,
            final(self)@.start == old(self)@.start,
            ({
                let s = old(self)@.source;
                let close = string_close(s, old(self)@.current);
                let nl = count_nl(s, old(self)@.current, close);
                if close >= s.len() {
                    &&& t.token_type == TokenType::Error
                    &&& t.lexeme@ == "Unterminated string."@
                    &&& t.line == old(self)@.line
                    &&& final(self)@.current == close
                    &&& final(self)@.line == old(self)@.line + nl
                } else {
                    &&& t.token_type == TokenType::String
                    &&& t.lexeme@ == s.subrange(old(self)@.start, close + 1)
                    &&& t.line == old(self)@.line
                    &&& final(self)@.current == close + 1
                    &&& final(self)@.line == old(self)@.line + nl
                }
            }),
    {
        // The token is stamped with the line of its opening quote, not
        // with the counter as it stands after the embedded newlines.
        let line_at_start = self.line;
        let ghost s0 = old(self)@;
        proof {
            lemma_string_close_bounds(s0.source, s0.current);
            lemma_count_nl_bounds(s0.source, s0.current, string_close(s0.source, s0.current));
        }
        loop
            invariant
                self.wf(),
                self@.source == s0.source,
                self@.start == s0.start,
                s0.current <= self@.current,
                string_close(self@.source, self@.current) == string_close(s0.source, s0.current),
                self@.line == s0.line + count_nl(s0.source, s0.current, self@.current),
            ensures
                self@.current >= self@.source.len() || self@.source[self@.current] == '"',
            decreases self@.source.len() - self@.current,
        {
            if self.is_at_end() {
                break ;
            }
            let c = self.current();
            if c == '"' {
                break ;
            }
            proof {
                lemma_count_nl_snoc(s0.source, s0.current, self@.current);
            }
            self.advance();
            if c == '\n' {
                self.line = self.line + 1;
            }
        }
        proof {
            assert(string_close(self@.source, self@.current) == self@.current);
        }
        if self.is_at_end() {
            return Token {
                token_type: TokenType::Error,
                lexeme: "Unterminated string.".to_owned(),
                line: line_at_start,
            };
        }
        // The closing quote.
        self.advance();
        let lexeme = self.get_text();
        Token { token_type: TokenType::String, lexeme, line: line_at_start }
    }

    /// Skips the ignored input and scans exactly one token. After the
    /// buffer is exhausted, every call returns an `Eof` token whose text is
    /// empty.
    pub fn scan_token(&mut self) -> (t: Token)
        requires
            old(self).wf(),
        ensures
            final(self).wf(),
            ({
                let r = scan_spec(old(self)@.source, old(self)@.current, old(self)@.line);
                &&& final(self)@.source == old(self)@.source
                &&& final(self)@.start == r.start
                &&& final(self)@.current == r.end
                &&& final(self)@.line == r.line_after
                &&& t.token_type == r.kind
                &&& t.lexeme@ == r.lexeme
                &&& t.line == r.token_line
            }),
            old(self)@.current <= final(self)@.current,
            final(self)@.current <= final(self)@.source.len(),
            t.token_type == TokenType::Error ==> old(self)@.current < final(self)@.current,
    {
        let ghost s0 = old(self)@;
        proof {
            lemma_skip_bounds(s0.source, s0.current, s0.line, false);
        }
        self.skip_ignored();
        self.start = self.current;
        let ghost p = self@.current;
        let ghost l = self@.line;

        if self.is_at_end() {
            let t = self.make_token(TokenType::Eof);
            proof {
                assert(t.lexeme@ =~= Seq::<char>::empty());
            }
            return t;
        }

        let c = self.advance();
        if c.is_alphabetic() {
            proof {
                lemma_ident_end_bounds(s0.source, p + 1);
            }
            return self.identifier();
        }

        if ascii_digit(c) {
            proof {
                lemma_number_end_bounds(s0.source, p + 1);
            }
            return self.number();
        }

        match c {
            '(' => self.make_token(TokenType::LeftParen),
            ')' => self.make_token(TokenType::RightParen),
            '{' => self.make_token(TokenType::LeftBrace),
            '}' => self.make_token(TokenType::RightBrace),
            ';' => self.make_token(TokenType::Semicolon),
            ',' => self.make_token(TokenType::Comma),
            '.' => self.make_token(TokenType::Dot),
            '-' => self.make_token(TokenType::Minus),
            '+' => self.make_token(TokenType::Plus),
            '/' => self.make_token(TokenType::Slash),
            '*' => self.make_token(TokenType::Star),
            '!' => {
                if self.match_and_advance('=') {
                    self.make_token(TokenType::BangEqual)
                } else {
                    self.make_token(TokenType::Bang)
                }
            },
            '=' => {
                if self.match_and_advance('=') {
                    self.make_token(TokenType::EqualEqual)
                } else {
                    self.make_token(TokenType::Equal)
                }
            },
            '<' => {
                if self.match_and_advance('=') {
                    self.make_token(TokenType::LessEqual)
                } else {
                    self.make_token(TokenType::Less)
                }
            },
            '>' => {
                if self.match_and_advance('=') {
                    self.make_token(TokenType::GreaterEqual)
                } else {
                    self.make_token(TokenType::Greater)
                }
            },
            '"' => {
                proof {
                    lemma_string_close_bounds(s0.source, p + 1);
                    lemma_count_nl_bounds(
                        s0.source,
                        p + 1,
                        string_close(s0.source, p + 1),
                    );
                }
                self.string()
            },
            _ => self.error_token("Unexpected character."),
        }
    }
}

// ---------------------------------------------------------------------
// A law of the scanner
// ---------------------------------------------------------------------

/// Whether the source from `i` on consists only of ignorable input:
/// blanks, newlines and `//` line comments. `in_comment` tells whether `i`
/// stands inside a comment.
pub open spec fn only_ignored_from(s: Seq<char>, i: int, in_comment: bool) -> bool
    decreases s.len() - i,
{
    if i >= s.len() {
        true
    } else if in_comment {
        if s[i] == '\n' {
            only_ignored_from(s, i + 1, false)
        } else {
            only_ignored_from(s, i + 1, true)
        }
    } else if is_blank(s[i]) || s[i] == '\n' {
        only_ignored_from(s, i + 1, false)
    } else if s[i] == '/' && i + 1 < s.len() && s[i + 1] == '/' {
        only_ignored_from(s, i + 2, true)
    } else {
        false
    }
}

/// Skipping a source that holds nothing but ignorable input consumes it
/// whole, and bumps the line counter once per newline anywhere in it.
proof fn lemma_skip_all(s: Seq<char>, i: int, line: int, in_comment: bool)
    requires
        0 <= i <= s.len(),
        only_ignored_from(s, i, in_comment),
    ensures
        skip_from(s, i, line, in_comment) == (s.len() as int, line + count_nl(s, i, s.len() as int)),
    decreases s.len() - i,
{
    if i >= s.len() {
    } else if in_comment {
        if s[i] == '\n' {
            lemma_skip_all(s, i + 1, line + 1, false);
        } else {
            lemma_skip_all(s, i + 1, line, true);
        }
    } else if is_blank(s[i]) {
        lemma_skip_all(s, i + 1, line, false);
    } else if s[i] == '\n' {
        lemma_skip_all(s, i + 1, line + 1, false);
    } else {
        lemma_skip_all(s, i + 2, line, true);
    }
}

/// Once the cursor stands at the end of the source, every further scan
/// yields `Eof` again, with an empty lexeme and without moving: the token
/// sequence ends in an infinite tail of `Eof`.
pub proof fn lemma_eof_repeats(s: Seq<char>, line: int)
    ensures
        scan_spec(s, s.len() as int, line).kind == TokenType::Eof,
        scan_spec(s, s.len() as int, line).lexeme == Seq::<char>::empty(),
        scan_spec(s, s.len() as int, line).token_line == line,
        scan_spec(s, s.len() as int, line).end == s.len(),
        scan_spec(s, s.len() as int, line).line_after == line,
{
}

/// On a source consisting only of blanks, newlines and comments, the first
/// `scan_token` call of a fresh scanner immediately yields `Eof`, with an
/// empty lexeme and with the line counter equal to one plus the number of
/// newlines in the whole source.
pub proof fn lemma_only_ignored_scans_eof(s: Seq<char>)
    requires
        only_ignored_from(s, 0, false),
    ensures
        scan_spec(s, 0, 1).kind == TokenType::Eof,
        scan_spec(s, 0, 1).lexeme == Seq::<char>::empty(),
        scan_spec(s, 0, 1).token_line == 1 + count_nl(s, 0, s.len() as int),
        scan_spec(s, 0, 1).end == s.len(),
{
    lemma_skip_all(s, 0, 1, false);
}

} // verus!
