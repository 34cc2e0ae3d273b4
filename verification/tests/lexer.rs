use bzr::lexer::token::{Location, Token};
use bzr::lexer::Lexer;

const FILENAME: &str = "foo.bzr";

fn lexer_for(source: &str) -> Lexer {
    Lexer::new(source.to_string(), FILENAME.to_string())
}

fn location(position: usize, line: usize) -> Option<Location> {
    Some(Location::new(position, line, FILENAME.to_string()))
}

#[test]
fn assert_true() {
    assert!(true);
}

#[test]
fn test_tokens() {
    let tokens = vec![
        Token::LBrace(location(0, 1)),
        Token::Rbrace(location(1, 1)),
        Token::LParen(location(2, 1)),
        Token::RParen(location(3, 1)),
        Token::Comma(location(4, 1)),
        Token::Semicolon(location(5, 1)),
        Token::Comma(location(7, 1)),
    ];
    let mut lexer = lexer_for("{}(),; ,");
    let found = lexer.tokens();
    assert_eq!(found.len(), tokens.len() + 1);
    for (i, expected) in tokens.iter().enumerate() {
        assert_eq!(found[i], *expected);
        assert_eq!(found[i].location().as_ref().unwrap().position, expected.location().as_ref().unwrap().position);
        assert_eq!(found[i].location().as_ref().unwrap().line, 1);
        assert_eq!(found[i].location().as_ref().unwrap().filename, FILENAME);
    }
    assert_eq!(found[tokens.len()], Token::EOF(None));
}

#[test]
fn test_is_whitespace() {
    let eof = if let Token::EOF(_) = lexer_for(" \r\t\n").next_token() {
        true
    } else {
        false
    };
    assert!(eof);
}

#[test]
fn test_identifier_token() {
    let source = "abc".to_string();
    let mut lexer = lexer_for(&source);
    let token = lexer.next_token();
    assert_eq!(Token::Ident(Some(source.clone()), location(0, 1)), token);
    assert_eq!(token.text(), &Some(source));
}

#[test]
fn test_identifier_with_number_token() {
    let source = "abc123".to_string();
    let mut lexer = lexer_for(&source);
    let token = lexer.next_token();
    assert_eq!(Token::Ident(Some(source.clone()), location(0, 1)), token);
    assert_eq!(token.text(), &Some(source));
}

#[test]
fn test_invalid_token() {
    let source = "$".to_string();
    let mut lexer = lexer_for(&source);
    let token = lexer.next_token();
    assert_eq!(Token::Illegal(Some(source.clone()), location(0, 1)), token);
    assert_eq!(token.text(), &Some(source));
}

#[test]
fn test_string_token() {
    let mut lexer = lexer_for("\"abc\"");
    let token = lexer.next_token();
    assert_eq!(Token::String(Some("abc".to_string()), location(0, 1)), token);
    assert_eq!(token.text(), &Some("abc".to_string()));
}

#[test]
fn test_number_token() {
    let mut lexer = lexer_for("457;\0");
    let token = lexer.next_token();
    assert_eq!(Token::Number(Some("457".to_string()), location(0, 1)), token);
    assert_eq!(token.text(), &Some("457".to_string()));
}

#[test]
fn test_eq_token() {
    let mut lexer = lexer_for("==");
    assert_eq!(Token::Eq(location(0, 1)), lexer.next_token());
}

#[test]
fn test_lte_token() {
    let mut lexer = lexer_for("<=");
    assert_eq!(Token::Lte(location(0, 1)), lexer.next_token());
}

#[test]
fn test_gte_token() {
    let mut lexer = lexer_for(">=");
    assert_eq!(Token::Gte(location(0, 1)), lexer.next_token());
}

#[test]
fn test_gte_illegal_order() {
    let source = "=>".to_string();
    let mut lexer = lexer_for(&source);
    let token = lexer.next_token();
    assert_eq!(Token::Illegal(Some(source.clone()), location(0, 1)), token);
    assert_eq!(token.text(), &Some(source));
}

#[test]
fn test_and_operator() {
    let mut lexer = lexer_for("&&");
    assert_eq!(Token::And(location(0, 1)), lexer.next_token());
}

#[test]
fn test_or_operator() {
    let mut lexer = lexer_for("||");
    assert_eq!(Token::Or(location(0, 1)), lexer.next_token());
}

#[test]
fn test_diff_token() {
    let mut lexer = lexer_for("!=");
    assert_eq!(Token::Diff(location(0, 1)), lexer.next_token());
}

#[test]
fn test_diff_illegal_order() {
    let source = "=!".to_string();
    let mut lexer = lexer_for(&source);
    let token = lexer.next_token();
    assert_eq!(Token::Illegal(Some(source.clone()), location(0, 1)), token);
    assert_eq!(token.text(), &Some(source));
}

#[test]
fn test_while_token() {
    let mut lexer = lexer_for("while");
    assert_eq!(Token::While(location(0, 1)), lexer.next_token());
}
