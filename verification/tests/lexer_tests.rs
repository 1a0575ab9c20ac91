use lexer::lexer::Lexer;
use lexer::token::{Token, TokenType};

/// Scans `input` from a fresh scanner and collects every token up to, and
/// not including, the first end-of-input token.
fn scan_all(input: &str) -> Vec<Token> {
    let mut lx = Lexer::new(input.to_string());
    let mut out = Vec::new();
    loop {
        let tok = lx.next_token();
        if tok.kind == TokenType::EOF {
            return out;
        }
        assert!(out.len() <= input.len(), "scanner failed to make progress");
        out.push(tok);
    }
}

fn kinds_and_texts(tokens: &[Token]) -> Vec<(TokenType, String)> {
    tokens.iter().map(|t| (t.kind, t.literal.clone())).collect()
}

#[test]
fn test_should_get_next_token() {
    let input = "let x = 5;";
    let mut lexer = Lexer::new(input.to_string());

    let expected_tokens = vec![
        Token {
            kind: TokenType::LET,
            literal: "let".to_string(),
            line: 1,
            column: 1,
        },
        Token {
            kind: TokenType::IDENT,
            literal: "x".to_string(),
            line: 1,
            column: 5,
        },
        Token {
            kind: TokenType::ASSIGN,
            literal: "=".to_string(),
            line: 1,
            column: 7,
        },
        Token {
            kind: TokenType::INT,
            literal: "5".to_string(),
            line: 1,
            column: 9,
        },
        Token {
            kind: TokenType::SEMICOLON,
            literal: ";".to_string(),
            line: 1,
            column: 10,
        },
    ];

    for expected_token in expected_tokens {
        let token = lexer.next_token();
        println!("Actual:   {:?}", token.kind);
        println!("Expected: {:?}", expected_token.kind);

        assert_eq!(token.kind, expected_token.kind);
        assert_eq!(token.literal, expected_token.literal);
    }
}

#[test]
fn line_and_column_tracking_single_line() {
    let tokens = scan_all("let x = 5;");
    let positions: Vec<(i32, i32)> = tokens.iter().map(|t| (t.line, t.column)).collect();
    assert_eq!(positions, vec![(1, 1), (1, 5), (1, 7), (1, 9), (1, 10)]);
}

#[test]
fn line_and_column_tracking_across_lines() {
    let tokens = scan_all("let\n  x\nreturn");
    assert_eq!(tokens.len(), 3);
    assert_eq!((tokens[0].kind, tokens[0].line, tokens[0].column), (TokenType::LET, 1, 1));
    assert_eq!((tokens[1].kind, tokens[1].line, tokens[1].column), (TokenType::IDENT, 2, 3));
    assert_eq!((tokens[2].kind, tokens[2].line, tokens[2].column), (TokenType::RETURN, 3, 1));
}

#[test]
fn every_single_char_operator() {
    let tokens = scan_all("+-*/<>,;(){}[]:");
    let expected = vec![
        (TokenType::PLUS, "+"),
        (TokenType::MINUS, "-"),
        (TokenType::ASTERISK, "*"),
        (TokenType::SLASH, "/"),
        (TokenType::LT, "<"),
        (TokenType::GT, ">"),
        (TokenType::COMMA, ","),
        (TokenType::SEMICOLON, ";"),
        (TokenType::LPAREN, "("),
        (TokenType::RPAREN, ")"),
        (TokenType::LBRACE, "{"),
        (TokenType::RBRACE, "}"),
        (TokenType::LBRACKET, "["),
        (TokenType::RBRACKET, "]"),
        (TokenType::COLON, ":"),
    ];
    assert_eq!(tokens.len(), expected.len());
    for (i, (kind, text)) in expected.into_iter().enumerate() {
        assert_eq!(tokens[i].kind, kind);
        assert_eq!(tokens[i].literal, text);
        // each operator advanced the cursor by exactly one character
        assert_eq!((tokens[i].line, tokens[i].column), (1, 1 + i as i32));
    }
}

#[test]
fn two_char_operators_match_greedily() {
    let tokens = kinds_and_texts(&scan_all("== != = !"));
    assert_eq!(
        tokens,
        vec![
            (TokenType::EQ, "==".to_string()),
            (TokenType::NotEq, "!=".to_string()),
            (TokenType::ASSIGN, "=".to_string()),
            (TokenType::BANG, "!".to_string()),
        ]
    );
}

#[test]
fn assign_and_bang_when_pair_is_not_completed() {
    let tokens = kinds_and_texts(&scan_all("=+ !a"));
    assert_eq!(
        tokens,
        vec![
            (TokenType::ASSIGN, "=".to_string()),
            (TokenType::PLUS, "+".to_string()),
            (TokenType::BANG, "!".to_string()),
            (TokenType::IDENT, "a".to_string()),
        ]
    );
}

#[test]
fn identifiers_are_maximal_runs() {
    let tokens = kinds_and_texts(&scan_all("foo_bar _x abc9"));
    // a digit ends an identifier run: `abc9` splits into a word and a number
    assert_eq!(
        tokens,
        vec![
            (TokenType::IDENT, "foo_bar".to_string()),
            (TokenType::IDENT, "_x".to_string()),
            (TokenType::IDENT, "abc".to_string()),
            (TokenType::INT, "9".to_string()),
        ]
    );
}

#[test]
fn keywords_scan_to_their_categories() {
    let tokens = scan_all("fn func def let true false if else return foobar");
    let kinds: Vec<TokenType> = tokens.iter().map(|t| t.kind).collect();
    assert_eq!(
        kinds,
        vec![
            TokenType::FUNCTION,
            TokenType::FUNCTION,
            TokenType::FUNCTION,
            TokenType::LET,
            TokenType::TRUE,
            TokenType::FALSE,
            TokenType::IF,
            TokenType::ELSE,
            TokenType::RETURN,
            TokenType::IDENT,
        ]
    );
}

#[test]
fn numbers_integer_and_float() {
    let tokens = kinds_and_texts(&scan_all("5 42 3.14 1.2.3 ."));
    assert_eq!(
        tokens,
        vec![
            (TokenType::INT, "5".to_string()),
            (TokenType::INT, "42".to_string()),
            (TokenType::FLOAT, "3.14".to_string()),
            (TokenType::FLOAT, "1.2.3".to_string()),
            (TokenType::FLOAT, ".".to_string()),
        ]
    );
}

#[test]
fn string_literal_excludes_quotes() {
    let tokens = scan_all("\"abc\"");
    assert_eq!(tokens.len(), 1);
    assert_eq!(tokens[0].kind, TokenType::STRING);
    assert_eq!(tokens[0].literal, "abc");
    assert_eq!((tokens[0].line, tokens[0].column), (1, 1));
}

#[test]
fn string_literal_empty_and_followed_by_more() {
    let tokens = kinds_and_texts(&scan_all("\"\";\"a b\""));
    assert_eq!(
        tokens,
        vec![
            (TokenType::STRING, "".to_string()),
            (TokenType::SEMICOLON, ";".to_string()),
            (TokenType::STRING, "a b".to_string()),
        ]
    );
}

#[test]
fn unterminated_string_runs_to_end_of_input() {
    let tokens = kinds_and_texts(&scan_all("\"abc"));
    assert_eq!(tokens, vec![(TokenType::STRING, "abc".to_string())]);
}

#[test]
fn comment_swallows_rest_of_line() {
    let tokens = scan_all("a // b c d\ne");
    assert_eq!(tokens.len(), 2);
    assert_eq!((tokens[0].kind, tokens[0].literal.as_str()), (TokenType::IDENT, "a"));
    assert_eq!((tokens[1].kind, tokens[1].literal.as_str()), (TokenType::IDENT, "e"));
    assert_eq!((tokens[1].line, tokens[1].column), (2, 1));
}

#[test]
fn comment_only_line_resumes_on_next_line() {
    let tokens = scan_all("// comment\n  let");
    assert_eq!(tokens.len(), 1);
    assert_eq!(tokens[0].kind, TokenType::LET);
    assert_eq!((tokens[0].line, tokens[0].column), (2, 3));
}

#[test]
fn comment_at_end_of_input_yields_no_token() {
    let tokens = scan_all("// nothing after this");
    assert_eq!(tokens.len(), 0);
    let tokens = scan_all("x // nothing after this");
    assert_eq!(tokens.len(), 1);
}

#[test]
fn consecutive_comment_lines() {
    let tokens = kinds_and_texts(&scan_all("// a\n// b\n// c\nreturn"));
    assert_eq!(tokens, vec![(TokenType::RETURN, "return".to_string())]);
}

#[test]
fn slash_alone_is_division() {
    let tokens = kinds_and_texts(&scan_all("a / b"));
    assert_eq!(
        tokens,
        vec![
            (TokenType::IDENT, "a".to_string()),
            (TokenType::SLASH, "/".to_string()),
            (TokenType::IDENT, "b".to_string()),
        ]
    );
}

#[test]
fn illegal_character_becomes_a_token() {
    let tokens = kinds_and_texts(&scan_all("a @ b"));
    assert_eq!(
        tokens,
        vec![
            (TokenType::IDENT, "a".to_string()),
            (TokenType::ILLEGAL, "@".to_string()),
            (TokenType::IDENT, "b".to_string()),
        ]
    );
}

#[test]
fn empty_input_is_end_of_input_at_once() {
    let mut lx = Lexer::new(String::new());
    let tok = lx.next_token();
    assert_eq!(tok.kind, TokenType::EOF);
    assert_eq!(tok.literal, "");
    assert_eq!((tok.line, tok.column), (1, 1));
}

#[test]
fn end_of_input_token_is_idempotent() {
    let mut lx = Lexer::new("x".to_string());
    assert_eq!(lx.next_token().kind, TokenType::IDENT);
    let first_eof = lx.next_token();
    assert_eq!(first_eof.kind, TokenType::EOF);
    for _ in 0..3 {
        let again = lx.next_token();
        assert_eq!(again, first_eof);
    }
}

#[test]
fn whitespace_only_input_yields_no_token() {
    let tokens = scan_all(" \t\r\n  ");
    assert_eq!(tokens.len(), 0);
}

#[test]
fn scanning_twice_yields_the_identical_sequence() {
    let input = "let x = 5; // five\nif (x == 5) { return true; } else { return \"no\"; }";
    let first = scan_all(input);
    let second = scan_all(input);
    assert_eq!(first, second);
    assert!(first.len() > 0);
}

#[test]
fn mixed_program_end_to_end() {
    let tokens = kinds_and_texts(&scan_all("let add = fn(a, b) { return a + b; };"));
    assert_eq!(
        tokens,
        vec![
            (TokenType::LET, "let".to_string()),
            (TokenType::IDENT, "add".to_string()),
            (TokenType::ASSIGN, "=".to_string()),
            (TokenType::FUNCTION, "fn".to_string()),
            (TokenType::LPAREN, "(".to_string()),
            (TokenType::IDENT, "a".to_string()),
            (TokenType::COMMA, ",".to_string()),
            (TokenType::IDENT, "b".to_string()),
            (TokenType::RPAREN, ")".to_string()),
            (TokenType::LBRACE, "{".to_string()),
            (TokenType::RETURN, "return".to_string()),
            (TokenType::IDENT, "a".to_string()),
            (TokenType::PLUS, "+".to_string()),
            (TokenType::IDENT, "b".to_string()),
            (TokenType::SEMICOLON, ";".to_string()),
            (TokenType::RBRACE, "}".to_string()),
            (TokenType::SEMICOLON, ";".to_string()),
        ]
    );
}
