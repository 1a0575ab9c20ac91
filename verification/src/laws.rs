//! The laws of the scanner, proved once and for all inputs: what each
//! class of lexeme scans to, that comments produce no token, that the scan
//! makes progress, and that the end-of-input token is emitted idempotently.
//!
//! Each law speaks about [`spec_token`], which `Lexer::next_token` is
//! proved to return exactly; so whatever holds of `spec_token` holds of
//! every call.

use vstd::prelude::*;

use crate::scan::{
    ch_at, init_state, is_digit_char, is_letter_char, is_op_char, lemma_comment_line,
    lemma_scan_ident_chars, lemma_scan_number_chars, lemma_scan_string_chars,
    lemma_skip_line_chars, lemma_skip_trivia_fixed, scan_ident, scan_number, scan_string,
    single_kind, skip_line, skip_trivia, spec_token, step, ScanState,
};
use crate::token::{keyword_kind, SpecToken, TokenType};

verus! {

/// A single-character operator or delimiter that does not open a
/// recognized two-character pair scans to exactly that character, with its
/// own category, at the cursor's position, and the cursor advances by
/// exactly one character.
pub proof fn lemma_single_char_operator(input: Seq<char>, st: ScanState, c: char)
    requires
        0 <= st.pos <= input.len(),
        skip_trivia(input, st) == st,
        c == ch_at(input, st.pos),
        is_op_char(c),
        c == '=' ==> ch_at(input, st.pos + 1) != '=',
        c == '!' ==> ch_at(input, st.pos + 1) != '=',
    ensures
        spec_token(input, st).0 == (SpecToken {
            kind: single_kind(c),
            text: seq![c],
            line: st.line,
            col: st.col,
        }),
        spec_token(input, st).1 == step(input, st),
{
}

/// `==` and `!=` each scan as one token whose lexeme is the two-character
/// pair, with categories `EQ` and `NotEq`, and the cursor advances by
/// exactly two characters.
pub proof fn lemma_two_char_operator(input: Seq<char>, st: ScanState, c: char)
    requires
        0 <= st.pos <= input.len(),
        skip_trivia(input, st) == st,
        c == ch_at(input, st.pos),
        c == '=' || c == '!',
        ch_at(input, st.pos + 1) == '=',
    ensures
        spec_token(input, st).0.kind == (if c == '=' {
            TokenType::EQ
        } else {
            TokenType::NotEq
        }),
        spec_token(input, st).0.text == seq![c, '='],
        spec_token(input, st).0.line == step(input, st).line,
        spec_token(input, st).0.col == step(input, st).col,
        spec_token(input, st).1 == step(input, step(input, st)),
{
    if c == '=' {
        assert(spec_token(input, st).0.text =~= seq![c, '=']);
    } else {
        assert(spec_token(input, st).0.text =~= seq![c, '=']);
    }
}

/// A letter or underscore starts an identifier: the lexeme is the maximal
/// run of letters and underscores from the cursor, and the category is the
/// keyword table's answer for that word — a reserved category for a
/// keyword, `IDENT` otherwise.
pub proof fn lemma_identifier_token(input: Seq<char>, st: ScanState)
    requires
        0 <= st.pos <= input.len(),
        skip_trivia(input, st) == st,
        is_letter_char(ch_at(input, st.pos)),
    ensures
        ({
            let e = scan_ident(input, st);
            let tok = spec_token(input, st).0;
            &&& st.pos < e.pos <= input.len()
            &&& tok.text == input.subrange(st.pos, e.pos)
            &&& forall|i: int| st.pos <= i < e.pos ==> is_letter_char(input[i])
            &&& !is_letter_char(ch_at(input, e.pos))
            &&& tok.kind == keyword_kind(tok.text)
            &&& tok.line == st.line
            &&& tok.col == st.col
            &&& spec_token(input, st).1 == e
        }),
{
    lemma_scan_ident_chars(input, st);
    lemma_scan_ident_chars(input, step(input, st));
}

/// A digit or dot starts a numeric literal: the lexeme is the maximal run
/// of digits and dots from the cursor, and the category is `FLOAT` when
/// the lexeme contains a dot, `INT` otherwise.
pub proof fn lemma_number_token(input: Seq<char>, st: ScanState)
    requires
        0 <= st.pos <= input.len(),
        skip_trivia(input, st) == st,
        is_digit_char(ch_at(input, st.pos)),
    ensures
        ({
            let e = scan_number(input, st);
            let tok = spec_token(input, st).0;
            &&& st.pos < e.pos <= input.len()
            &&& tok.text == input.subrange(st.pos, e.pos)
            &&& forall|i: int| st.pos <= i < e.pos ==> is_digit_char(input[i])
            &&& !is_digit_char(ch_at(input, e.pos))
            &&& tok.kind == (if tok.text.contains('.') {
                TokenType::FLOAT
            } else {
                TokenType::INT
            })
            &&& tok.line == st.line
            &&& tok.col == st.col
            &&& spec_token(input, st).1 == e
        }),
{
    lemma_scan_number_chars(input, st);
    lemma_scan_number_chars(input, step(input, st));
}

/// A double quote starts a string literal: the lexeme is everything
/// strictly between the opening quote and the next quote (or the end of
/// input, when no quote closes the literal), with both quotes excluded;
/// the cursor ends past the closing quote when there is one.
pub proof fn lemma_string_token(input: Seq<char>, st: ScanState)
    requires
        0 <= st.pos <= input.len(),
        skip_trivia(input, st) == st,
        ch_at(input, st.pos) == '"',
    ensures
        ({
            let e = scan_string(input, step(input, st));
            let tok = spec_token(input, st).0;
            &&& st.pos + 1 <= e.pos <= input.len()
            &&& tok.kind == TokenType::STRING
            &&& tok.text == input.subrange(st.pos + 1, e.pos)
            &&& forall|i: int| st.pos + 1 <= i < e.pos ==> input[i] != '"'
            &&& (e.pos < input.len() ==> input[e.pos] == '"' && spec_token(input, st).1 == step(
                input,
                e,
            ))
            &&& (e.pos == input.len() ==> spec_token(input, st).1 == e)
            &&& tok.line == st.line
            &&& tok.col == st.col
        }),
{
    lemma_scan_string_chars(input, step(input, st));
}

/// A line comment produces no token: everything from `//` up to the next
/// newline (or the end of input) is discarded, and the next token from a
/// cursor standing on `//` is the next token found from the end of that
/// comment line.
pub proof fn lemma_comment_no_token(input: Seq<char>, st: ScanState)
    requires
        0 <= st.pos <= input.len(),
        ch_at(input, st.pos) == '/',
        ch_at(input, st.pos + 1) == '/',
    ensures
        ({
            let e = skip_line(input, step(input, st));
            &&& spec_token(input, st) == spec_token(input, e)
            &&& st.pos < e.pos <= input.len()
            &&& forall|i: int| st.pos + 1 <= i < e.pos ==> input[i] != '\n'
            &&& (e.pos < input.len() ==> input[e.pos] == '\n')
        }),
{
    lemma_comment_line(input, step(input, st));
    lemma_skip_line_chars(input, step(input, st));
}

/// Every scan step makes progress: the end-of-input token is emitted
/// exactly when the trivia before the next token runs to the end of the
/// input, and every other token moves the cursor strictly forward; the
/// cursor never leaves the input.
pub proof fn lemma_token_progress(input: Seq<char>, st: ScanState)
    requires
        0 <= st.pos <= input.len(),
    ensures
        ({
            let s = skip_trivia(input, st);
            let r = spec_token(input, st);
            &&& st.pos <= s.pos <= r.1.pos <= input.len()
            &&& (r.0.kind == TokenType::EOF <==> s.pos == input.len())
            &&& (r.0.kind == TokenType::EOF ==> r.1 == s)
            &&& (r.0.kind != TokenType::EOF ==> s.pos < r.1.pos)
        }),
{
    lemma_skip_trivia_fixed(input, st);
    let s = skip_trivia(input, st);
    let c = ch_at(input, s.pos);
    if s.pos >= input.len() {
    } else if (c == '=' || c == '!') && ch_at(input, s.pos + 1) == '=' {
    } else if is_op_char(c) {
    } else if c == '"' {
        lemma_scan_string_chars(input, step(input, s));
    } else if is_digit_char(c) {
        lemma_scan_number_chars(input, step(input, s));
    } else if is_letter_char(c) {
        lemma_scan_ident_chars(input, step(input, s));
    }
}

/// Once the scan has reached the end of input, it stays there: after an
/// `EOF` token, every later call returns the same `EOF` token and leaves
/// the cursor unchanged.
pub proof fn lemma_eof_stable(input: Seq<char>, st: ScanState)
    requires
        0 <= st.pos <= input.len(),
        spec_token(input, st).0.kind == TokenType::EOF,
    ensures
        spec_token(input, spec_token(input, st).1) == spec_token(input, st),
{
    lemma_skip_trivia_fixed(input, st);
    lemma_token_progress(input, st);
}

/// The token sequence of an input: what a fresh scanner yields, call after
/// call, up to and not including the end-of-input token. `next_token`'s
/// contract pins every call's result to [`spec_token`], a function of the
/// input and the cursor alone, so scanning the same input from a fresh
/// scanner always yields exactly this sequence.
pub open spec fn scan_tokens_from(input: Seq<char>, st: ScanState) -> Seq<SpecToken>
    decreases input.len() - st.pos
        when 0 <= st.pos <= input.len()
        via scan_tokens_from_dec
{
    let r = spec_token(input, st);
    if r.0.kind == TokenType::EOF {
        Seq::empty()
    } else {
        seq![r.0] + scan_tokens_from(input, r.1)
    }
}

#[via_fn]
proof fn scan_tokens_from_dec(input: Seq<char>, st: ScanState) {
    lemma_token_progress(input, st);
}

/// The token sequence of a whole input, from a fresh scanner.
pub open spec fn scan_tokens(input: Seq<char>) -> Seq<SpecToken> {
    scan_tokens_from(input, init_state(input))
}

/// Empty input reaches the end-of-input condition at once: the first call
/// already returns `EOF`, at line 1 and column 1, without consuming
/// anything, and the token sequence is empty.
pub proof fn lemma_empty_input(input: Seq<char>)
    requires
        input.len() == 0,
    ensures
        spec_token(input, init_state(input)).0.kind == TokenType::EOF,
        spec_token(input, init_state(input)).0.line == 1,
        spec_token(input, init_state(input)).0.col == 1,
        spec_token(input, init_state(input)).1 == init_state(input),
        scan_tokens(input) == Seq::<SpecToken>::empty(),
{
}

} // verus!
