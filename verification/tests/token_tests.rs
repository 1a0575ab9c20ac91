use lexer::token::{lookup_ident, Token, TokenType};

#[test]
fn test_should_lookup_ident() {
    assert_eq!(lookup_ident("let"), TokenType::LET);
    assert_eq!(lookup_ident("if"), TokenType::IF);
    assert_eq!(lookup_ident("foobar"), TokenType::IDENT);
}

#[test]
fn test_should_match_token_equality() {
    let token1 = Token {
        kind: TokenType::IDENT,
        literal: String::from("foo"),
        line: 1,
        column: 2,
    };

    let token2 = Token {
        kind: TokenType::IDENT,
        literal: String::from("foo"),
        line: 1,
        column: 2,
    };

    assert_eq!(token1, token2);
}

#[test]
fn lookup_covers_every_keyword_spelling() {
    assert_eq!(lookup_ident("fn"), TokenType::FUNCTION);
    assert_eq!(lookup_ident("func"), TokenType::FUNCTION);
    assert_eq!(lookup_ident("def"), TokenType::FUNCTION);
    assert_eq!(lookup_ident("let"), TokenType::LET);
    assert_eq!(lookup_ident("true"), TokenType::TRUE);
    assert_eq!(lookup_ident("false"), TokenType::FALSE);
    assert_eq!(lookup_ident("if"), TokenType::IF);
    assert_eq!(lookup_ident("else"), TokenType::ELSE);
    assert_eq!(lookup_ident("return"), TokenType::RETURN);
}

#[test]
fn lookup_is_exact_not_prefix_based() {
    assert_eq!(lookup_ident("lets"), TokenType::IDENT);
    assert_eq!(lookup_ident("le"), TokenType::IDENT);
    assert_eq!(lookup_ident("iff"), TokenType::IDENT);
    assert_eq!(lookup_ident("Fn"), TokenType::IDENT);
    assert_eq!(lookup_ident(""), TokenType::IDENT);
    assert_eq!(lookup_ident("_"), TokenType::IDENT);
}
