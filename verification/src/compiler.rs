//! The compilation driver. Its parsing stage is deliberately minimal: it
//! drives the scanner over the source, absorbing and recording every
//! lexical error, and yields an empty chunk when lexing succeeds. It is the
//! seam a full expression parser would plug into.
//!
//! Diagnostics are an explicit list carried by the compiler, not ambient
//! state: whoever runs the compiler decides where they are printed.

use vstd::prelude::*;
use vstd::string::StringExecFns;
use crate::InterpretError;
use crate::chunk::Chunk;
use crate::scanner::{ScanState, Scanner, Token, TokenModel, TokenType, scan_spec};
use crate::text::{dec_str, fmt_usize};

verus! {

/// The diagnostic line for an error reported at a token: the token's line,
/// a marker for where the error sits (`at end` for `Eof`, the offending
/// lexeme for ordinary tokens, nothing for `Error` tokens, whose text is
/// the message itself), and the message.
pub open spec fn diagnostic(kind: TokenType, lexeme: Seq<char>, line: int, message: Seq<char>) -> Seq<char> {
    "[line "@ + dec_str(line) + "] Error"@ + (if kind == TokenType::Eof {
        " at end"@
    } else if kind == TokenType::Error {
        Seq::<char>::empty()
    } else {
        " at '"@ + lexeme + "'"@
    }) + ": "@ + message
}

/// What pulling tokens until the first non-`Error` token produces: that
/// token, the scanner's cursor and line after it, and one diagnostic per
/// `Error` token absorbed on the way.
pub ghost struct Advanced {
    pub kind: TokenType,
    pub lexeme: Seq<char>,
    pub token_line: int,
    pub end: int,
    pub line_after: int,
    pub errors: Seq<Seq<char>>,
}

/// One `advance` call of the compiler, seen from the scanner's state: scan;
/// while the token is an `Error`, record its diagnostic and scan again.
/// (An `Error` token always moves the cursor forward, so the recursion is
/// grounded; the guard makes that explicit.)
pub open spec fn advance_spec(s: Seq<char>, i: int, line: int) -> Advanced
    decreases s.len() - i,
{
    let sc = scan_spec(s, i, line);
    if sc.kind == TokenType::Error && i < sc.end && sc.end <= s.len() {
        let rest = advance_spec(s, sc.end, sc.line_after);
        Advanced {
            kind: rest.kind,
            lexeme: rest.lexeme,
            token_line: rest.token_line,
            end: rest.end,
            line_after: rest.line_after,
            errors: seq![
                diagnostic(TokenType::Error, sc.lexeme, sc.token_line, sc.lexeme),
            ] + rest.errors,
        }
    } else {
        Advanced {
            kind: sc.kind,
            lexeme: sc.lexeme,
            token_line: sc.token_line,
            end: sc.end,
            line_after: sc.line_after,
            errors: Seq::<Seq<char>>::empty(),
        }
    }
}

/// The compiler's token window: the token under consideration, the one
/// before it, and whether any error has been recorded for this unit.
pub struct Parser {
    pub current: Token,
    pub previous: Token,
    pub had_error: bool,
}

/// Drives the scanner over one source buffer and records every lexical
/// error it meets.
pub struct Compiler {
    pub parser: Parser,
    scanner: Scanner,
    errors: Vec<String>,
}

impl Compiler {
    /// The compiler's internal invariant: its scanner is well formed.
    pub closed spec fn wf(&self) -> bool {
        self.scanner.wf()
    }

    /// The scanner's observable state.
    pub closed spec fn scan_state(&self) -> ScanState {
        self.scanner@
    }

    /// The recorded diagnostics, in the order they were reported.
    pub closed spec fn errors_view(&self) -> Seq<Seq<char>> {
        self.errors.deep_view()
    }

    /// The token under consideration.
    pub closed spec fn current_token(&self) -> TokenModel {
        self.parser.current@
    }

    /// The token before it.
    pub closed spec fn previous_token(&self) -> TokenModel {
        self.parser.previous@
    }

    /// Whether any error has been recorded for this unit.
    pub closed spec fn had_error(&self) -> bool {
        self.parser.had_error
    }

    /// A fresh compiler over an empty source, with placeholder tokens in
    /// the window and nothing recorded.
    pub fn new() -> (c: Self)
        ensures
            c.wf(),
            c.had_error() == false,
            c.current_token().kind == TokenType::Eof,
            c.previous_token().kind == TokenType::Eof,
            c.errors_view() == Seq::<Seq<char>>::empty(),
            c.scan_state().source == Seq::<char>::empty(),
            c.scan_state().current == 0,
            c.scan_state().line == 1,
    {
        proof {
            reveal_strlit("");
        }
        let c = Compiler {
            parser: Parser {
                current: Token { token_type: TokenType::Eof, lexeme: String::new(), line: 0 },
                previous: Token { token_type: TokenType::Eof, lexeme: String::new(), line: 0 },
                had_error: false,
            },
            scanner: Scanner::new(""),
            errors: Vec::new(),
        };
        proof {
            assert(c.errors_view() =~= Seq::<Seq<char>>::empty());
        }
        c
    }

    /// Shifts the current token into `previous` and pulls tokens from the
    /// scanner until one that is not an `Error` token, recording one
    /// diagnostic per error absorbed — a unit with several lexical errors
    /// reports them all, not only the first.
    pub fn advance(&mut self)
        requires
            old(self).wf(),
        ensures
            final(self).wf(),
            final(self).previous_token() == old(self).current_token(),
            ({
                let a = advance_spec(
                    old(self).scan_state().source,
                    old(self).scan_state().current,
                    old(self).scan_state().line,
                );
                &&& final(self).current_token().kind == a.kind
                &&& final(self).current_token().lexeme == a.lexeme
                &&& final(self).current_token().line == a.token_line
                &&& final(self).current_token().kind != TokenType::Error
                &&& final(self).scan_state().source == old(self).scan_state().source
                &&& final(self).scan_state().current == a.end
                &&& final(self).scan_state().line == a.line_after
                &&& final(self).errors_view() == old(self).errors_view() + a.errors
                &&& final(self).had_error() == (old(self).had_error() || a.errors.len()
                    > 0)
            }),
    {
        let ghost src = self.scan_state().source;
        let ghost a0 = advance_spec(src, self.scan_state().current, self.scan_state().line);
        let ghost e0 = self.errors_view();
        let ghost h0 = self.parser.had_error;
        let ghost prev0 = self.parser.current@;
        self.parser.previous = self.parser.current.clone();
        loop
            invariant_except_break
                ({
                    let rest = advance_spec(
                        src,
                        self.scan_state().current,
                        self.scan_state().line,
                    );
                    &&& a0.kind == rest.kind
                    &&& a0.lexeme == rest.lexeme
                    &&& a0.token_line == rest.token_line
                    &&& a0.end == rest.end
                    &&& a0.line_after == rest.line_after
                    &&& e0 + a0.errors == self.errors_view() + rest.errors
                    &&& (h0 || a0.errors.len() > 0) == (self.parser.had_error || rest.errors.len()
                        > 0)
                }),
            invariant
                self.wf(),
                self.scan_state().source == src,
                self.parser.previous@ == prev0,
            ensures
                self.wf(),
                self.scan_state().source == src,
                self.parser.previous@ == prev0,
                self.parser.current@.kind == a0.kind,
                self.parser.current@.lexeme == a0.lexeme,
                self.parser.current@.line == a0.token_line,
                self.parser.current@.kind != TokenType::Error,
                self.scan_state().current == a0.end,
                self.scan_state().line == a0.line_after,
                self.errors_view() == e0 + a0.errors,
                self.parser.had_error == (h0 || a0.errors.len() > 0),
            decreases src.len() - self.scan_state().current,
        {
            let ghost cur0 = self.scan_state().current;
            let ghost line0 = self.scan_state().line;
            let ghost rest_pre = advance_spec(src, cur0, line0);
            let t = self.scanner.scan_token();
            let is_error = t.token_type == TokenType::Error;
            self.parser.current = t;
            if !is_error {
                proof {
                    assert(self.errors_view() =~= e0 + a0.errors);
                }
                break ;
            }
            let message = self.parser.current.lexeme.clone();
            self.error_at_current(message.as_str());
            proof {
                let rest_post = advance_spec(
                    src,
                    self.scan_state().current,
                    self.scan_state().line,
                );
                let sc = scan_spec(src, cur0, line0);
                let diag = diagnostic(TokenType::Error, sc.lexeme, sc.token_line, sc.lexeme);
                assert(rest_pre.errors == seq![diag] + rest_post.errors);
                assert(e0 + a0.errors =~= self.errors_view() + rest_post.errors);
            }
        }
    }

    /// Records an error at the current token.
    pub fn error_at_current(&mut self, message: &str)
        requires
            old(self).wf(),
        ensures
            final(self).wf(),
            final(self).current_token() == old(self).current_token(),
            final(self).previous_token() == old(self).previous_token(),
            final(self).scan_state() == old(self).scan_state(),
            final(self).had_error(),
            final(self).errors_view() == old(self).errors_view().push(
                diagnostic(
                    old(self).current_token().kind,
                    old(self).current_token().lexeme,
                    old(self).current_token().line,
                    message@,
                ),
            ),
    {
        let token = self.parser.current.clone();
        self.error_at(&token, message);
    }

    /// Records an error at the previous token.
    pub fn error(&mut self, message: &str)
        requires
            old(self).wf(),
        ensures
            final(self).wf(),
            final(self).current_token() == old(self).current_token(),
            final(self).previous_token() == old(self).previous_token(),
            final(self).scan_state() == old(self).scan_state(),
            final(self).had_error(),
            final(self).errors_view() == old(self).errors_view().push(
                diagnostic(
                    old(self).previous_token().kind,
                    old(self).previous_token().lexeme,
                    old(self).previous_token().line,
                    message@,
                ),
            ),
    {
        let token = self.parser.previous.clone();
        self.error_at(&token, message);
    }

    /// Formats and records the diagnostic for an error at `token`, and
    /// marks the unit as failed.
    pub fn error_at(&mut self, token: &Token, message: &str)
        requires
            old(self).wf(),
        ensures
            final(self).wf(),
            final(self).current_token() == old(self).current_token(),
            final(self).previous_token() == old(self).previous_token(),
            final(self).scan_state() == old(self).scan_state(),
            final(self).had_error(),
            final(self).errors_view() == old(self).errors_view().push(
                diagnostic(token@.kind, token@.lexeme, token@.line, message@),
            ),
    {
        let mut line = String::new();
        line.append("[line ");
        let number = fmt_usize(token.line);
        line.append(number.as_str());
        line.append("] Error");
        if token.token_type == TokenType::Eof {
            line.append(" at end");
        } else if token.token_type == TokenType::Error {
            // The token's own text is the message; no location suffix.
        } else {
            line.append(" at '");
            line.append(token.lexeme.as_str());
            line.append("'");
        }
        line.append(": ");
        line.append(message);
        proof {
            assert(line@ =~= diagnostic(token@.kind, token@.lexeme, token@.line, message@));
        }
        self.parser.had_error = true;
        self.errors.push(line);
        proof {
            assert(self.errors_view() =~= old(self).errors_view().push(
                diagnostic(token@.kind, token@.lexeme, token@.line, message@),
            ));
        }
    }

    /// The recorded diagnostics, one `String` per reported error.
    pub fn errors(&self) -> (e: &Vec<String>)
        ensures
            e.deep_view() == self.errors_view(),
    {
        &self.errors
    }

    /// Resets the scanner over `source` — and the error flag and the
    /// diagnostic list, which are scoped to one compile unit — and pulls
    /// one token, absorbing and recording every leading lexical error.
    /// Fails when any error was recorded for this unit; succeeds with an
    /// empty chunk otherwise — no expression parsing takes place at this
    /// stage.
    ///
    /// The length bound is the scanner's machine limit on its line
    /// counter.
    pub fn compile(&mut self, source: &str) -> (r: Result<Chunk, InterpretError>)
        requires
            source@.len() < usize::MAX,
        ensures
            final(self).wf(),
            ({
                let a = advance_spec(source@, 0, 1);
                &&& final(self).scan_state().source == source@
                &&& final(self).current_token().kind == a.kind
                &&& final(self).errors_view() == a.errors
                &&& final(self).had_error() == (a.errors.len() > 0)
                &&& match r {
                    Ok(c) => !final(self).had_error() && c@.code.len() == 0 && c@.lines.len()
                        == 0 && c@.constants.len() == 0,
                    Err(e) => final(self).had_error() && e == InterpretError::CompileError,
                }
            }),
    {
        // One unit, one accumulator: what an earlier unit recorded does
        // not fail this one.
        self.errors = Vec::new();
        self.parser.had_error = false;
        self.scanner = Scanner::new(source);
        self.advance();
        proof {
            assert(self.errors_view() =~= advance_spec(source@, 0, 1).errors);
        }
        if self.parser.had_error {
            Err(InterpretError::CompileError)
        } else {
            Ok(Chunk::new())
        }
    }
}

} // verus!
