//! The scanner: a single-pass, one-character-lookahead cursor over the
//! input text that produces one token per call.

use vstd::prelude::*;

use crate::scan::{
    ch_at, init_state, is_digit_char, is_letter_char, is_ws_char, lemma_comment_line,
    lemma_skip_ws_trivia, scan_ident, scan_number, scan_string, skip_line, skip_trivia, skip_ws,
    spec_token, step, ScanState,
};
use crate::token::{lookup_ident, Token, TokenType};

verus! {

/// The scanner's state: the input under scan and the cursor over it.
///
/// `position` indexes the current character, `read_position` the next one,
/// and `ch` caches the current character (the null sentinel at or past the
/// end of input); `line` and `column` locate the current character for
/// diagnostics, both 1-based.
pub struct Lexer {
    input: String,
    position: usize,
    read_position: usize,
    ch: char,
    line: i32,
    column: i32,
}

impl Lexer {
    /// The input under scan, as the model sees it.
    pub closed spec fn inp(self) -> Seq<char> {
        self.input@
    }

    /// The cursor, in the model's terms.
    pub closed spec fn st(self) -> ScanState {
        ScanState { pos: self.position as int, line: self.line as int, col: self.column as int }
    }

    /// The scanner's invariant: the cursor stands inside the input or at
    /// the sentinel, the lookahead index and the cached character mirror
    /// it, and line and column stay small enough that every advance is
    /// free of `i32` overflow.
    pub closed spec fn wf(self) -> bool {
        &&& self.position <= self.input@.len()
        &&& self.read_position == self.position + 1
        &&& self.ch == ch_at(self.input@, self.position as int)
        &&& 1 <= self.line <= self.position + 2
        &&& 0 <= self.column <= self.position + 1
        &&& self.input@.len() + 3 <= i32::MAX
    }

    /// Builds a scanner over `input`, with the cursor at the first
    /// character (or at the sentinel for empty input), line 1, column 1.
    /// The length bound keeps line and column inside `i32` throughout the
    /// scan.
    pub fn new(input: String) -> (lexer: Lexer)
        requires
            input@.len() + 3 <= i32::MAX,
        ensures
            lexer.wf(),
            lexer.inp() == input@,
            lexer.st() == init_state(input@),
    {
        let n = input.as_str().unicode_len();
        let mut lexer = Lexer {
            input,
            position: 0,
            read_position: 1,
            ch: '\0',
            line: 1,
            column: 1,
        };
        if n > 0 {
            let c = lexer.input.as_str().get_char(0);
            lexer.ch = c;
            if c == '\n' {
                lexer.line = 2;
                lexer.column = 0;
            }
        }
        lexer
    }

    /// Advances the cursor by one character; reading past the end of the
    /// input parks it on the null sentinel.
    fn read_char(&mut self)
        requires
            old(self).wf(),
            old(self).st().pos < old(self).inp().len(),
        ensures
            final(self).wf(),
            final(self).inp() == old(self).inp(),
            final(self).st() == step(old(self).inp(), old(self).st()),
    {
        let n = self.input.as_str().unicode_len();
        if self.read_position >= n {
            self.ch = '\0';
        } else {
            self.ch = self.input.as_str().get_char(self.read_position);
        }
        self.position = self.read_position;
        self.read_position = self.read_position + 1;
        if self.ch == '\n' {
            self.line = self.line + 1;
            self.column = 0;
        } else {
            self.column = self.column + 1;
        }
    }

    /// The character after the current one, without moving the cursor.
    fn peek_char(&self) -> (c: char)
        requires
            self.wf(),
        ensures
            c == ch_at(self.inp(), self.st().pos + 1),
    {
        let n = self.input.as_str().unicode_len();
        if self.read_position >= n {
            '\0'
        } else {
            self.input.as_str().get_char(self.read_position)
        }
    }

    /// Whether `ch` may start or continue an identifier or keyword.
    fn is_letter(&self, ch: char) -> (r: bool)
        ensures
            r == is_letter_char(ch),
    {
        ('a' <= ch && ch <= 'z') || ('A' <= ch && ch <= 'Z') || ch == '_'
    }

    /// Whether `ch` may start or continue a numeric literal.
    fn is_digit(&self, ch: char) -> (r: bool)
        ensures
            r == is_digit_char(ch),
    {
        ('0' <= ch && ch <= '9') || ch == '.'
    }

    /// Consumes the run of whitespace at the cursor, if any.
    fn skip_whitespace(&mut self)
        requires
            old(self).wf(),
        ensures
            final(self).wf(),
            final(self).inp() == old(self).inp(),
            final(self).st() == skip_ws(old(self).inp(), old(self).st()),
            old(self).st().pos <= final(self).st().pos,
            !is_ws_char(ch_at(final(self).inp(), final(self).st().pos)),
    {
        while self.ch == ' ' || self.ch == '\t' || self.ch == '\n' || self.ch == '\r'
            invariant
                self.wf(),
                self.inp() == old(self).inp(),
                old(self).st().pos <= self.st().pos,
                skip_ws(self.inp(), self.st()) == skip_ws(old(self).inp(), old(self).st()),
            decreases self.inp().len() - self.st().pos,
        {
            self.read_char();
        }
    }

    /// Consumes the rest of a line comment, up to but not including the
    /// terminating newline, or to the end of input.
    fn skip_comment(&mut self)
        requires
            old(self).wf(),
        ensures
            final(self).wf(),
            final(self).inp() == old(self).inp(),
            final(self).st() == skip_line(old(self).inp(), old(self).st()),
            old(self).st().pos <= final(self).st().pos,
    {
        let n = self.input.as_str().unicode_len();
        while self.position < n && self.ch != '\n'
            invariant
                self.wf(),
                self.inp() == old(self).inp(),
                n == self.inp().len(),
                old(self).st().pos <= self.st().pos,
                skip_line(self.inp(), self.st()) == skip_line(old(self).inp(), old(self).st()),
            decreases self.inp().len() - self.st().pos,
        {
            self.read_char();
        }
    }

    /// Consumes the maximal run of identifier characters at the cursor and
    /// returns it as the lexeme.
    fn read_identifier(&mut self) -> (lit: String)
        requires
            old(self).wf(),
        ensures
            final(self).wf(),
            final(self).inp() == old(self).inp(),
            final(self).st() == scan_ident(old(self).inp(), old(self).st()),
            old(self).st().pos <= final(self).st().pos,
            lit@ == old(self).inp().subrange(old(self).st().pos, final(self).st().pos),
    {
        let position = self.position;
        while self.is_letter(self.ch)
            invariant
                self.wf(),
                self.inp() == old(self).inp(),
                position == old(self).st().pos,
                position <= self.st().pos,
                scan_ident(self.inp(), self.st()) == scan_ident(old(self).inp(), old(self).st()),
            decreases self.inp().len() - self.st().pos,
        {
            self.read_char();
        }
        let s = self.input.as_str().substring_char(position, self.position);
        String::from_str(s)
    }

    /// Consumes the maximal run of digit-or-dot characters at the cursor
    /// and returns it as the lexeme.
    fn read_number(&mut self) -> (lit: String)
        requires
            old(self).wf(),
        ensures
            final(self).wf(),
            final(self).inp() == old(self).inp(),
            final(self).st() == scan_number(old(self).inp(), old(self).st()),
            old(self).st().pos <= final(self).st().pos,
            lit@ == old(self).inp().subrange(old(self).st().pos, final(self).st().pos),
    {
        let position = self.position;
        while self.is_digit(self.ch)
            invariant
                self.wf(),
                self.inp() == old(self).inp(),
                position == old(self).st().pos,
                position <= self.st().pos,
                scan_number(self.inp(), self.st()) == scan_number(old(self).inp(), old(self).st()),
            decreases self.inp().len() - self.st().pos,
        {
            self.read_char();
        }
        let s = self.input.as_str().substring_char(position, self.position);
        String::from_str(s)
    }

    /// Consumes a string literal at the cursor (which must stand on the
    /// opening quote): everything up to the closing quote, or to the end
    /// of input, is the lexeme; both quotes are consumed and excluded.
    fn read_string(&mut self) -> (lit: String)
        requires
            old(self).wf(),
            ch_at(old(self).inp(), old(self).st().pos) == '"',
        ensures
            final(self).wf(),
            final(self).inp() == old(self).inp(),
            ({
                let body = step(old(self).inp(), old(self).st());
                let e = scan_string(old(self).inp(), body);
                &&& lit@ == old(self).inp().subrange(body.pos, e.pos)
                &&& final(self).st() == (if e.pos < old(self).inp().len() {
                    step(old(self).inp(), e)
                } else {
                    e
                })
            }),
    {
        self.read_char();
        let ghost body = self.st();
        let position = self.position;
        let n = self.input.as_str().unicode_len();
        while self.position < n && self.ch != '"'
            invariant
                self.wf(),
                self.inp() == old(self).inp(),
                n == self.inp().len(),
                position == body.pos,
                position <= self.st().pos,
                scan_string(self.inp(), self.st()) == scan_string(old(self).inp(), body),
            decreases self.inp().len() - self.st().pos,
        {
            self.read_char();
        }
        let s = self.input.as_str().substring_char(position, self.position);
        let lit = String::from_str(s);
        if self.position < n {
            self.read_char();
        }
        lit
    }

    /// Emits a token for the single character at the cursor and advances
    /// past it.
    fn single_char_token(&mut self, kind: TokenType) -> (tok: Token)
        requires
            old(self).wf(),
            old(self).st().pos < old(self).inp().len(),
        ensures
            final(self).wf(),
            final(self).inp() == old(self).inp(),
            final(self).st() == step(old(self).inp(), old(self).st()),
            tok@.kind == kind,
            tok@.text == seq![ch_at(old(self).inp(), old(self).st().pos)],
            tok@.line == old(self).st().line,
            tok@.col == old(self).st().col,
    {
        let s = self.input.as_str().substring_char(self.position, self.position + 1);
        let lit = String::from_str(s);
        proof {
            assert(lit@ =~= seq![ch_at(self.inp(), self.st().pos)]);
        }
        let tok = Token { kind, literal: lit, line: self.line, column: self.column };
        self.read_char();
        tok
    }

    /// Whether the lexeme contains a dot, which decides between the float
    /// and integer categories.
    fn has_dot(s: &str) -> (r: bool)
        ensures
            r == s@.contains('.'),
    {
        let n = s.unicode_len();
        let mut i: usize = 0;
        while i < n
            invariant
                0 <= i <= n,
                n == s@.len(),
                forall|j: int| 0 <= j < i ==> s@[j] != '.',
            decreases n - i,
        {
            if s.get_char(i) == '.' {
                proof {
                    assert(s@[i as int] == '.');
                }
                return true;
            }
            i = i + 1;
        }
        false
    }

    /// Produces the next token: skips whitespace and line comments, then
    /// scans exactly the token [`spec_token`] names for the current state.
    ///
    /// Once the cursor is at the end of input, the dedicated `EOF` token
    /// is emitted, with an empty lexeme and without moving the cursor, on
    /// this and every later call. The token's result and the new cursor
    /// are a function of the input and the old cursor alone, so scanning
    /// the same input from a fresh scanner always yields the identical
    /// token sequence.
    pub fn next_token(&mut self) -> (tok: Token)
        requires
            old(self).wf(),
        ensures
            final(self).wf(),
            final(self).inp() == old(self).inp(),
            tok@ == spec_token(old(self).inp(), old(self).st()).0,
            final(self).st() == spec_token(old(self).inp(), old(self).st()).1,
    {
        loop
            invariant
                self.wf(),
                self.inp() == old(self).inp(),
                skip_trivia(self.inp(), self.st()) == skip_trivia(old(self).inp(), old(self).st()),
            ensures
                self.wf(),
                self.inp() == old(self).inp(),
                self.st() == skip_trivia(old(self).inp(), old(self).st()),
            decreases self.inp().len() - self.st().pos,
        {
            let ghost st0 = self.st();
            self.skip_whitespace();
            proof {
                lemma_skip_ws_trivia(self.inp(), st0);
            }
            if self.ch == '/' && self.peek_char() == '/' {
                self.read_char();
                let ghost st2 = self.st();
                self.skip_comment();
                proof {
                    lemma_comment_line(self.inp(), st2);
                }
            } else {
                break;
            }
        }
        let ghost s = self.st();
        let line = self.line;
        let column = self.column;
        let n = self.input.as_str().unicode_len();
        if self.position >= n {
            return Token { kind: TokenType::EOF, literal: String::new(), line, column };
        }
        let c = self.ch;
        if c == '=' {
            if self.peek_char() == '=' {
                let pair = self.input.as_str().substring_char(self.position, self.position + 2);
                let lit = String::from_str(pair);
                proof {
                    assert(lit@ =~= seq!['=', '=']);
                }
                self.read_char();
                let line2 = self.line;
                let column2 = self.column;
                self.read_char();
                Token { kind: TokenType::EQ, literal: lit, line: line2, column: column2 }
            } else {
                self.single_char_token(TokenType::ASSIGN)
            }
        } else if c == '!' {
            if self.peek_char() == '=' {
                let pair = self.input.as_str().substring_char(self.position, self.position + 2);
                let lit = String::from_str(pair);
                proof {
                    assert(lit@ =~= seq!['!', '=']);
                }
                self.read_char();
                let line2 = self.line;
                let column2 = self.column;
                self.read_char();
                Token { kind: TokenType::NotEq, literal: lit, line: line2, column: column2 }
            } else {
                self.single_char_token(TokenType::BANG)
            }
        } else if c == '+' {
            self.single_char_token(TokenType::PLUS)
        } else if c == '-' {
            self.single_char_token(TokenType::MINUS)
        } else if c == '*' {
            self.single_char_token(TokenType::ASTERISK)
        } else if c == '/' {
            self.single_char_token(TokenType::SLASH)
        } else if c == '<' {
            self.single_char_token(TokenType::LT)
        } else if c == '>' {
            self.single_char_token(TokenType::GT)
        } else if c == ',' {
            self.single_char_token(TokenType::COMMA)
        } else if c == ';' {
            self.single_char_token(TokenType::SEMICOLON)
        } else if c == '(' {
            self.single_char_token(TokenType::LPAREN)
        } else if c == ')' {
            self.single_char_token(TokenType::RPAREN)
        } else if c == '{' {
            self.single_char_token(TokenType::LBRACE)
        } else if c == '}' {
            self.single_char_token(TokenType::RBRACE)
        } else if c == '[' {
            self.single_char_token(TokenType::LBRACKET)
        } else if c == ']' {
            self.single_char_token(TokenType::RBRACKET)
        } else if c == ':' {
            self.single_char_token(TokenType::COLON)
        } else if c == '"' {
            let lit = self.read_string();
            Token { kind: TokenType::STRING, literal: lit, line, column }
        } else if self.is_digit(c) {
            let lit = self.read_number();
            let kind = if Lexer::has_dot(lit.as_str()) {
                TokenType::FLOAT
            } else {
                TokenType::INT
            };
            Token { kind, literal: lit, line, column }
        } else if self.is_letter(c) {
            let lit = self.read_identifier();
            let kind = lookup_ident(lit.as_str());
            Token { kind, literal: lit, line, column }
        } else {
            self.single_char_token(TokenType::ILLEGAL)
        }
    }
}

} // verus!

