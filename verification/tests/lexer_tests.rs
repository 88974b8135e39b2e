use lox_core::lexer::Lexer;
use lox_core::token::{IlligalType, Token, TokenKind};

#[test]
fn lexer_empty() {
    let mut lexer = Lexer::new("");
    let token = lexer.next_token();
    assert_eq!(token, None);
}

#[test]
fn tokenizer_empty() {
    let mut lexer = Lexer::new("");
    let token = lexer.next_token();
    assert_eq!(token, None);
}

fn tok(kind: TokenKind, literal: &str, line: usize, column: usize) -> Token {
    Token { kind, literal: literal.to_string(), line, column }
}

fn parens_expected() -> Vec<Token> {
    vec![
        tok(TokenKind::LeftParen, "(", 1, 2),
        tok(TokenKind::LeftParen, "(", 1, 4),
        tok(TokenKind::RightParen, ")", 1, 6),
        tok(TokenKind::RightParen, ")", 1, 8),
    ]
}

#[test]
fn lexer_scanning_parentheses() {
    let input = " ( ( ) ) ";
    let mut lexer = Lexer::new(input);
    let actual_tokens: Vec<Token> = lexer.tokenize();
    assert_eq!(actual_tokens, parens_expected());
}

#[test]
fn tokenizer_scanning_parentheses() {
    let input = " ( ( ) ) ";
    let mut lexer = Lexer::new(input);
    let actual_tokens: Vec<Token> = lexer.tokenize();
    assert_eq!(actual_tokens, parens_expected());
}

fn brace_expected() -> Vec<Token> {
    vec![
        tok(TokenKind::LeftBrace, "{", 1, 2),
        tok(TokenKind::LeftBrace, "{", 1, 3),
        tok(TokenKind::RightBrace, "}", 1, 5),
        tok(TokenKind::RightBrace, "}", 1, 6),
    ]
}

#[test]
fn lexer_scanning_brace() {
    let input = " {{ }} ";
    let mut lexer = Lexer::new(input);
    let actual_tokens: Vec<Token> = lexer.tokenize();
    assert_eq!(actual_tokens, brace_expected());
}

#[test]
fn tokenizer_scanning_brace() {
    let input = " {{ }} ";
    let mut lexer = Lexer::new(input);
    let actual_tokens: Vec<Token> = lexer.tokenize();
    assert_eq!(actual_tokens, brace_expected());
}

fn symbols_expected() -> Vec<Token> {
    vec![
        tok(TokenKind::LeftBrace, "{", 1, 1),
        tok(TokenKind::Star, "*", 1, 2),
        tok(TokenKind::Dot, ".", 1, 3),
        tok(TokenKind::Comma, ",", 1, 4),
        tok(TokenKind::Plus, "+", 1, 5),
        tok(TokenKind::Star, "*", 1, 6),
        tok(TokenKind::Minus, "-", 1, 7),
        tok(TokenKind::Slash, "/", 1, 8),
        tok(TokenKind::Semi, ";", 1, 9),
        tok(TokenKind::RightBrace, "}", 1, 10),
        tok(TokenKind::RightParen, ")", 1, 11),
    ]
}

#[test]
fn lexer_scanning_symbols() {
    let input = "{*.,+*-/;})";
    let mut lexer = Lexer::new(input);
    let actual_tokens: Vec<Token> = lexer.tokenize();
    assert_eq!(actual_tokens, symbols_expected());
}

#[test]
fn tokenizer_scanning_symbols() {
    let input = "{*.,+*-/;})";
    let mut lexer = Lexer::new(input);
    let actual_tokens: Vec<Token> = lexer.tokenize();
    assert_eq!(actual_tokens, symbols_expected());
}

fn newline_expected() -> Vec<Token> {
    vec![tok(TokenKind::LeftBrace, "{", 1, 1), tok(TokenKind::RightBrace, "}", 2, 1)]
}

#[test]
fn lexer_scanning_with_newline() {
    let input = "{\n}";
    let mut lexer = Lexer::new(input);
    let actual_tokens: Vec<Token> = lexer.tokenize();
    assert_eq!(actual_tokens, newline_expected());
}

#[test]
fn tokenizer_scanning_with_newline() {
    let input = "{\n}";
    let mut lexer = Lexer::new(input);
    let actual_tokens: Vec<Token> = lexer.tokenize();
    assert_eq!(actual_tokens, newline_expected());
}

fn equal_bang_expected() -> Vec<Token> {
    vec![
        tok(TokenKind::EqualEqual, "==", 1, 1),
        tok(TokenKind::Equal, "=", 1, 2),
        tok(TokenKind::BangEqual, "!=", 1, 3),
        tok(TokenKind::Bang, "!", 1, 4),
        tok(TokenKind::Less, "<", 1, 5),
        tok(TokenKind::LessEqual, "<=", 1, 6),
        tok(TokenKind::Greater, ">", 1, 7),
        tok(TokenKind::GreaterEqual, ">=", 1, 8),
    ]
}

#[test]
fn lexer_scanning_equal_bang() {
    let input = "===!=!<<=>>=";
    let mut lexer = Lexer::new(input);
    let actual_tokens: Vec<Token> = lexer.tokenize();
    assert_eq!(actual_tokens, equal_bang_expected());
}

#[test]
fn tokenizer_scanning_equal_bang() {
    let input = "===!=!<<=>>=";
    let mut lexer = Lexer::new(input);
    let actual_tokens: Vec<Token> = lexer.tokenize();
    assert_eq!(actual_tokens, equal_bang_expected());
}

#[test]
fn number_and_keyword_tokens() {
    let mut lexer = Lexer::new("var x = 3.5;");
    let tokens = lexer.tokenize();
    assert_eq!(tokens.len(), 5);
    assert_eq!(tokens[0].kind, TokenKind::Var);
    assert_eq!(tokens[1].kind, TokenKind::Identifier);
    assert_eq!(tokens[1].literal, "x");
    assert_eq!(tokens[2].kind, TokenKind::Equal);
    assert_eq!(tokens[3].kind, TokenKind::Number(3.5f64.to_bits()));
    assert_eq!(tokens[3].literal, "3.5");
    assert_eq!(tokens[4].kind, TokenKind::Semi);
}

#[test]
fn string_token_and_unterminated() {
    let mut lexer = Lexer::new("\"hello\"");
    let tokens = lexer.tokenize();
    assert_eq!(tokens.len(), 1);
    assert_eq!(tokens[0].kind, TokenKind::String);
    assert_eq!(tokens[0].literal, "hello");

    let mut lexer2 = Lexer::new("\"oops");
    let tokens2 = lexer2.tokenize();
    assert_eq!(tokens2.len(), 1);
    assert_eq!(tokens2[0].kind, TokenKind::Illegal(IlligalType::UnterminatedString));
    assert_eq!(tokens2[0].literal, "oops");
}

#[test]
fn illegal_characters_each_get_one_token() {
    let mut lexer = Lexer::new("@#");
    let tokens = lexer.tokenize();
    assert_eq!(tokens.len(), 2);
    assert_eq!(tokens[0].kind, TokenKind::Illegal(IlligalType::Unexpected));
    assert_eq!(tokens[0].literal, "@");
    assert_eq!(tokens[1].kind, TokenKind::Illegal(IlligalType::Unexpected));
    assert_eq!(tokens[1].literal, "#");
}

#[test]
fn comments_and_whitespace_are_skipped() {
    let mut lexer = Lexer::new("// nothing here\n  + // trailing\n-");
    let tokens = lexer.tokenize();
    assert_eq!(tokens.len(), 2);
    assert_eq!(tokens[0].kind, TokenKind::Plus);
    assert_eq!(tokens[0].line, 2);
    assert_eq!(tokens[0].column, 3);
    assert_eq!(tokens[1].kind, TokenKind::Minus);
    assert_eq!(tokens[1].line, 3);
    assert_eq!(tokens[1].column, 1);
}

#[test]
fn token_display_lines() {
    let mut lexer = Lexer::new("( foo \"bar\" 42 4.5 class");
    let tokens = lexer.tokenize();
    assert_eq!(tokens[0].display_string(), "LEFT_PAREN ( null");
    assert_eq!(tokens[1].display_string(), "IDENTIFIER foo null");
    assert_eq!(tokens[2].display_string(), "STRING \"bar\" bar");
    assert_eq!(tokens[3].display_string(), "NUMBER 42 42.0");
    assert_eq!(tokens[4].display_string(), "NUMBER 4.5 4.5");
    assert_eq!(tokens[5].display_string(), "CLASS class null");
}

#[test]
fn illegal_token_display_reports_line() {
    let mut lexer = Lexer::new("\n@");
    let tokens = lexer.tokenize();
    assert_eq!(tokens[0].display_string(), "[line 2] Error: Unexpected character: @");
}
