//! The mathematical model of the scan: what token stands at a given cursor
//! position of a given input, and where the cursor stands afterwards.
//!
//! The executable scanner's contracts are stated entirely in terms of
//! [`spec_token`]: for an input (a sequence of characters) and a cursor
//! state (position, line, column), it gives the token the next call must
//! return and the state the scanner must be left in.

use vstd::prelude::*;

use crate::token::{keyword_kind, SpecToken, TokenType};

verus! {

/// The scanner's cursor: the index of the current character, and the
/// 1-based source line and column of that character. A `pos` equal to the
/// input's length stands for the end-of-input sentinel.
pub struct ScanState {
    pub pos: int,
    pub line: int,
    pub col: int,
}

/// The characters skipped silently between tokens.
pub open spec fn is_ws_char(c: char) -> bool {
    c == ' ' || c == '\t' || c == '\n' || c == '\r'
}

/// The characters that may start or continue an identifier or keyword.
pub open spec fn is_letter_char(c: char) -> bool {
    ('a' <= c && c <= 'z') || ('A' <= c && c <= 'Z') || c == '_'
}

/// The characters that may start or continue a numeric literal. The dot is
/// included: validating the shape of a literal is deferred to a later
/// stage, so `1.2.3` or a bare `.` scan as one literal.
pub open spec fn is_digit_char(c: char) -> bool {
    ('0' <= c && c <= '9') || c == '.'
}

/// The character at `pos`, or the null sentinel at or past the end.
pub open spec fn ch_at(input: Seq<char>, pos: int) -> char {
    if 0 <= pos < input.len() {
        input[pos]
    } else {
        '\0'
    }
}

/// Advances the cursor by one character. Moving onto a newline steps the
/// line count and resets the column to 0, so that the following advance
/// brings the column to 1; moving onto any other character steps the
/// column.
pub open spec fn step(input: Seq<char>, st: ScanState) -> ScanState {
    let pos = st.pos + 1;
    if ch_at(input, pos) == '\n' {
        ScanState { pos, line: st.line + 1, col: 0 }
    } else {
        ScanState { pos, line: st.line, col: st.col + 1 }
    }
}

/// The cursor of a fresh scanner: at the first character (or at the
/// sentinel for empty input), line 1, column 1 — except that an input
/// starting with a newline counts it at once, exactly as [`step`] would.
pub open spec fn init_state(input: Seq<char>) -> ScanState {
    if ch_at(input, 0) == '\n' {
        ScanState { pos: 0, line: 2, col: 0 }
    } else {
        ScanState { pos: 0, line: 1, col: 1 }
    }
}

/// The cursor after skipping the run of whitespace at `st`.
pub open spec fn skip_ws(input: Seq<char>, st: ScanState) -> ScanState
    decreases input.len() - st.pos,
{
    if is_ws_char(ch_at(input, st.pos)) {
        skip_ws(input, step(input, st))
    } else {
        st
    }
}

/// The cursor after skipping to the next newline or to the end of input,
/// without consuming the newline itself.
pub open spec fn skip_line(input: Seq<char>, st: ScanState) -> ScanState
    decreases input.len() - st.pos,
{
    if st.pos < input.len() && ch_at(input, st.pos) != '\n' {
        skip_line(input, step(input, st))
    } else {
        st
    }
}

/// The cursor after the body of a string literal: every character up to
/// the closing quote or the end of input belongs to the literal.
pub open spec fn scan_string(input: Seq<char>, st: ScanState) -> ScanState
    decreases input.len() - st.pos,
{
    if st.pos < input.len() && ch_at(input, st.pos) != '"' {
        scan_string(input, step(input, st))
    } else {
        st
    }
}

/// The cursor after the maximal run of identifier characters at `st`.
pub open spec fn scan_ident(input: Seq<char>, st: ScanState) -> ScanState
    decreases input.len() - st.pos,
{
    if is_letter_char(ch_at(input, st.pos)) {
        scan_ident(input, step(input, st))
    } else {
        st
    }
}

/// The cursor after the maximal run of digit-or-dot characters at `st`.
pub open spec fn scan_number(input: Seq<char>, st: ScanState) -> ScanState
    decreases input.len() - st.pos,
{
    if is_digit_char(ch_at(input, st.pos)) {
        scan_number(input, step(input, st))
    } else {
        st
    }
}

/// The cursor at the start of the next token: whitespace and line
/// comments, in any alternation, produce no token and are passed over.
pub open spec fn skip_trivia(input: Seq<char>, st: ScanState) -> ScanState
    decreases input.len() - st.pos, 1int,
{
    if is_ws_char(ch_at(input, st.pos)) {
        skip_trivia(input, step(input, st))
    } else if ch_at(input, st.pos) == '/' && ch_at(input, st.pos + 1) == '/' {
        skip_comment_from(input, step(input, st))
    } else {
        st
    }
}

/// Passes over the rest of a line comment (the cursor stands inside it)
/// and goes on skipping trivia after the terminating newline, if any.
pub open spec fn skip_comment_from(input: Seq<char>, st: ScanState) -> ScanState
    decreases input.len() - st.pos, 0int,
{
    if st.pos < input.len() && ch_at(input, st.pos) != '\n' {
        skip_comment_from(input, step(input, st))
    } else if ch_at(input, st.pos) == '\n' {
        skip_trivia(input, step(input, st))
    } else {
        st
    }
}

/// The single-character operators and delimiters, including `=` and `!`,
/// which stand alone whenever the following character does not complete
/// `==` or `!=`.
pub open spec fn is_op_char(c: char) -> bool {
    c == '=' || c == '+' || c == '-' || c == '!' || c == '*' || c == '/' || c == '<' || c == '>'
        || c == ',' || c == ';' || c == '(' || c == ')' || c == '{' || c == '}' || c == '['
        || c == ']' || c == ':'
}

/// The category of each single-character operator or delimiter.
pub open spec fn single_kind(c: char) -> TokenType {
    if c == '=' {
        TokenType::ASSIGN
    } else if c == '+' {
        TokenType::PLUS
    } else if c == '-' {
        TokenType::MINUS
    } else if c == '!' {
        TokenType::BANG
    } else if c == '*' {
        TokenType::ASTERISK
    } else if c == '/' {
        TokenType::SLASH
    } else if c == '<' {
        TokenType::LT
    } else if c == '>' {
        TokenType::GT
    } else if c == ',' {
        TokenType::COMMA
    } else if c == ';' {
        TokenType::SEMICOLON
    } else if c == '(' {
        TokenType::LPAREN
    } else if c == ')' {
        TokenType::RPAREN
    } else if c == '{' {
        TokenType::LBRACE
    } else if c == '}' {
        TokenType::RBRACE
    } else if c == '[' {
        TokenType::LBRACKET
    } else if c == ']' {
        TokenType::RBRACKET
    } else if c == ':' {
        TokenType::COLON
    } else {
        TokenType::ILLEGAL
    }
}

/// The token standing exactly at `s`, which must already be at a token
/// start (no whitespace, no comment: see [`skip_trivia`]), and the cursor
/// after it.
///
/// At the sentinel the dedicated end-of-input token is emitted, with an
/// empty lexeme and without moving the cursor, so that every later call
/// emits it again. A string literal's lexeme excludes the delimiting
/// quotes; when the input ends before a closing quote, the lexeme simply
/// runs to the end of the input. Any unrecognized character is emitted as
/// a single-character `ILLEGAL` token.
pub open spec fn spec_token_at(input: Seq<char>, s: ScanState) -> (SpecToken, ScanState) {
    let c = ch_at(input, s.pos);
    if s.pos >= input.len() {
        (SpecToken { kind: TokenType::EOF, text: Seq::empty(), line: s.line, col: s.col }, s)
    } else if c == '=' && ch_at(input, s.pos + 1) == '=' {
        let s2 = step(input, s);
        (
            SpecToken { kind: TokenType::EQ, text: seq!['=', '='], line: s2.line, col: s2.col },
            step(input, s2),
        )
    } else if c == '!' && ch_at(input, s.pos + 1) == '=' {
        let s2 = step(input, s);
        (
            SpecToken { kind: TokenType::NotEq, text: seq!['!', '='], line: s2.line, col: s2.col },
            step(input, s2),
        )
    } else if is_op_char(c) {
        (
            SpecToken { kind: single_kind(c), text: seq![c], line: s.line, col: s.col },
            step(input, s),
        )
    } else if c == '"' {
        let body = step(input, s);
        let e = scan_string(input, body);
        let tok = SpecToken {
            kind: TokenType::STRING,
            text: input.subrange(body.pos, e.pos),
            line: s.line,
            col: s.col,
        };
        if e.pos < input.len() {
            (tok, step(input, e))
        } else {
            (tok, e)
        }
    } else if is_digit_char(c) {
        let e = scan_number(input, s);
        let text = input.subrange(s.pos, e.pos);
        let kind = if text.contains('.') {
            TokenType::FLOAT
        } else {
            TokenType::INT
        };
        (SpecToken { kind, text, line: s.line, col: s.col }, e)
    } else if is_letter_char(c) {
        let e = scan_ident(input, s);
        let text = input.subrange(s.pos, e.pos);
        (SpecToken { kind: keyword_kind(text), text, line: s.line, col: s.col }, e)
    } else {
        (SpecToken { kind: TokenType::ILLEGAL, text: seq![c], line: s.line, col: s.col }, step(input, s))
    }
}

/// The next token from cursor state `st`: trivia is passed over, then the
/// token standing there is scanned. This is the whole contract of one
/// `next_token` call.
pub open spec fn spec_token(input: Seq<char>, st: ScanState) -> (SpecToken, ScanState) {
    spec_token_at(input, skip_trivia(input, st))
}

/// Skipping whitespace is covered by skipping trivia: doing the former
/// first does not change where the trivia ends.
pub proof fn lemma_skip_ws_trivia(input: Seq<char>, st: ScanState)
    requires
        0 <= st.pos <= input.len(),
    ensures
        skip_trivia(input, skip_ws(input, st)) == skip_trivia(input, st),
    decreases input.len() - st.pos,
{
    if is_ws_char(ch_at(input, st.pos)) {
        lemma_skip_ws_trivia(input, step(input, st));
    }
}

/// Skipping the rest of a comment line and then the trivia after it is
/// the same as skipping from inside the comment directly.
pub proof fn lemma_comment_line(input: Seq<char>, st: ScanState)
    requires
        0 <= st.pos <= input.len(),
    ensures
        skip_comment_from(input, st) == skip_trivia(input, skip_line(input, st)),
    decreases input.len() - st.pos,
{
    if st.pos < input.len() && ch_at(input, st.pos) != '\n' {
        lemma_comment_line(input, step(input, st));
    }
}

/// Where the trivia ends, a token starts: no whitespace, no comment
/// opener, and skipping trivia again from there moves nothing.
pub proof fn lemma_skip_trivia_fixed(input: Seq<char>, st: ScanState)
    requires
        0 <= st.pos <= input.len(),
    ensures
        ({
            let r = skip_trivia(input, st);
            &&& st.pos <= r.pos <= input.len()
            &&& !is_ws_char(ch_at(input, r.pos))
            &&& !(ch_at(input, r.pos) == '/' && ch_at(input, r.pos + 1) == '/')
            &&& skip_trivia(input, r) == r
        }),
    decreases input.len() - st.pos, 1int,
{
    let c = ch_at(input, st.pos);
    if is_ws_char(c) {
        lemma_skip_trivia_fixed(input, step(input, st));
    } else if c == '/' && ch_at(input, st.pos + 1) == '/' {
        lemma_skip_comment_fixed(input, step(input, st));
    }
}

/// The same fixed-point facts for the cursor a comment skip leaves behind.
pub proof fn lemma_skip_comment_fixed(input: Seq<char>, st: ScanState)
    requires
        0 <= st.pos <= input.len(),
    ensures
        ({
            let r = skip_comment_from(input, st);
            &&& st.pos <= r.pos <= input.len()
            &&& !is_ws_char(ch_at(input, r.pos))
            &&& !(ch_at(input, r.pos) == '/' && ch_at(input, r.pos + 1) == '/')
            &&& skip_trivia(input, r) == r
        }),
    decreases input.len() - st.pos, 0int,
{
    if st.pos < input.len() && ch_at(input, st.pos) != '\n' {
        lemma_skip_comment_fixed(input, step(input, st));
    } else if ch_at(input, st.pos) == '\n' {
        lemma_skip_trivia_fixed(input, step(input, st));
    }
}

/// What a line skip passes over: everything up to, and not including, the
/// next newline or the end of input.
pub proof fn lemma_skip_line_chars(input: Seq<char>, st: ScanState)
    requires
        0 <= st.pos <= input.len(),
    ensures
        ({
            let r = skip_line(input, st);
            &&& st.pos <= r.pos <= input.len()
            &&& forall|i: int| st.pos <= i < r.pos ==> input[i] != '\n'
            &&& (r.pos < input.len() ==> input[r.pos] == '\n')
        }),
    decreases input.len() - st.pos,
{
    if st.pos < input.len() && ch_at(input, st.pos) != '\n' {
        lemma_skip_line_chars(input, step(input, st));
    }
}

/// What a string-body scan passes over: everything up to the closing
/// quote, or to the end of input when no quote closes the literal.
pub proof fn lemma_scan_string_chars(input: Seq<char>, st: ScanState)
    requires
        0 <= st.pos <= input.len(),
    ensures
        ({
            let r = scan_string(input, st);
            &&& st.pos <= r.pos <= input.len()
            &&& forall|i: int| st.pos <= i < r.pos ==> input[i] != '"'
            &&& (r.pos < input.len() ==> input[r.pos] == '"')
        }),
    decreases input.len() - st.pos,
{
    if st.pos < input.len() && ch_at(input, st.pos) != '"' {
        lemma_scan_string_chars(input, step(input, st));
    }
}

/// What an identifier scan passes over: the maximal run of letters and
/// underscores starting at the cursor.
pub proof fn lemma_scan_ident_chars(input: Seq<char>, st: ScanState)
    requires
        0 <= st.pos <= input.len(),
    ensures
        ({
            let r = scan_ident(input, st);
            &&& st.pos <= r.pos <= input.len()
            &&& forall|i: int| st.pos <= i < r.pos ==> is_letter_char(input[i])
            &&& !is_letter_char(ch_at(input, r.pos))
        }),
    decreases input.len() - st.pos,
{
    if is_letter_char(ch_at(input, st.pos)) {
        lemma_scan_ident_chars(input, step(input, st));
    }
}

/// What a number scan passes over: the maximal run of digits and dots
/// starting at the cursor.
pub proof fn lemma_scan_number_chars(input: Seq<char>, st: ScanState)
    requires
        0 <= st.pos <= input.len(),
    ensures
        ({
            let r = scan_number(input, st);
            &&& st.pos <= r.pos <= input.len()
            &&& forall|i: int| st.pos <= i < r.pos ==> is_digit_char(input[i])
            &&& !is_digit_char(ch_at(input, r.pos))
        }),
    decreases input.len() - st.pos,
{
    if is_digit_char(ch_at(input, st.pos)) {
        lemma_scan_number_chars(input, step(input, st));
    }
}

} // verus!
