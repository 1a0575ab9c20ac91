//! The token model: token categories, the token record, and the
//! classification of reserved words.

use vstd::prelude::*;

verus! {

/// The closed set of token categories the scanner can emit.
#[allow(non_camel_case_types)]
#[derive(Debug, Clone, Copy, PartialEq, Eq, Structural)]
pub enum TokenType {
    ILLEGAL,
    EOF,
    // Identifiers + literals
    IDENT,
    INT,
    FLOAT,
    // Operators
    ASSIGN,
    PLUS,
    MINUS,
    BANG,
    ASTERISK,
    SLASH,
    EQ,
    NotEq,
    LT,
    GT,
    // Delimiters
    COMMA,
    SEMICOLON,
    LPAREN,
    RPAREN,
    LBRACE,
    RBRACE,
    LBRACKET,
    RBRACKET,
    // Keywords
    FUNCTION,
    LET,
    TRUE,
    FALSE,
    IF,
    ELSE,
    RETURN,
    STRING,
    COLON,
}

/// One lexical unit: its category, the exact matched lexeme (for string
/// literals, without the delimiting quotes), and the 1-based source line
/// and column of the first matched character.
#[derive(Debug, Clone, PartialEq)]
pub struct Token {
    pub kind: TokenType,
    pub literal: String,
    pub line: i32,
    pub column: i32,
}

/// The mathematical image of a [`Token`]: the lexeme as a sequence of
/// characters, the position as unbounded integers.
pub struct SpecToken {
    pub kind: TokenType,
    pub text: Seq<char>,
    pub line: int,
    pub col: int,
}

impl View for Token {
    type V = SpecToken;

    open spec fn view(&self) -> SpecToken {
        SpecToken {
            kind: self.kind,
            text: self.literal@,
            line: self.line as int,
            col: self.column as int,
        }
    }
}

/// The keyword table: which words are reserved, and the category each one
/// maps to. Any other word is an ordinary identifier.
pub open spec fn keyword_kind(word: Seq<char>) -> TokenType {
    if word == seq!['f', 'n'] || word == seq!['f', 'u', 'n', 'c'] || word == seq!['d', 'e', 'f'] {
        TokenType::FUNCTION
    } else if word == seq!['l', 'e', 't'] {
        TokenType::LET
    } else if word == seq!['t', 'r', 'u', 'e'] {
        TokenType::TRUE
    } else if word == seq!['f', 'a', 'l', 's', 'e'] {
        TokenType::FALSE
    } else if word == seq!['i', 'f'] {
        TokenType::IF
    } else if word == seq!['e', 'l', 's', 'e'] {
        TokenType::ELSE
    } else if word == seq!['r', 'e', 't', 'u', 'r', 'n'] {
        TokenType::RETURN
    } else {
        TokenType::IDENT
    }
}

/// Character-wise string comparison, so that equality of the views is
/// decided without leaning on an unspecified `PartialEq` impl.
fn str_eq(a: &str, b: &str) -> (r: bool)
    ensures
        r == (a@ == b@),
{
    let na = a.unicode_len();
    let nb = b.unicode_len();
    if na != nb {
        return false;
    }
    let mut i: usize = 0;
    while i < na
        invariant
            0 <= i <= na,
            na == a@.len(),
            na == b@.len(),
            forall|j: int| 0 <= j < i ==> a@[j] == b@[j],
        decreases na - i,
    {
        if a.get_char(i) != b.get_char(i) {
            return false;
        }
        i = i + 1;
    }
    proof {
        assert(a@ =~= b@);
    }
    true
}

/// Looks a word up in the keyword table, returning its reserved category,
/// or `IDENT` for any word that is not reserved.
pub fn lookup_ident(ident: &str) -> (kind: TokenType)
    ensures
        kind == keyword_kind(ident@),
{
    proof {
        reveal_strlit("fn");
        reveal_strlit("func");
        reveal_strlit("def");
        reveal_strlit("let");
        reveal_strlit("true");
        reveal_strlit("false");
        reveal_strlit("if");
        reveal_strlit("else");
        reveal_strlit("return");
        assert("fn"@ =~= seq!['f', 'n']);
        assert("func"@ =~= seq!['f', 'u', 'n', 'c']);
        assert("def"@ =~= seq!['d', 'e', 'f']);
        assert("let"@ =~= seq!['l', 'e', 't']);
        assert("true"@ =~= seq!['t', 'r', 'u', 'e']);
        assert("false"@ =~= seq!['f', 'a', 'l', 's', 'e']);
        assert("if"@ =~= seq!['i', 'f']);
        assert("else"@ =~= seq!['e', 'l', 's', 'e']);
        assert("return"@ =~= seq!['r', 'e', 't', 'u', 'r', 'n']);
    }
    if str_eq(ident, "fn") {
        TokenType::FUNCTION
    } else if str_eq(ident, "func") {
        TokenType::FUNCTION
    } else if str_eq(ident, "def") {
        TokenType::FUNCTION
    } else if str_eq(ident, "let") {
        TokenType::LET
    } else if str_eq(ident, "true") {
        TokenType::TRUE
    } else if str_eq(ident, "false") {
        TokenType::FALSE
    } else if str_eq(ident, "if") {
        TokenType::IF
    } else if str_eq(ident, "else") {
        TokenType::ELSE
    } else if str_eq(ident, "return") {
        TokenType::RETURN
    } else {
        TokenType::IDENT
    }
}

} // verus!
