//! Tests for the parser cursor.
use sqlfront::parser::{Parser, ParserError};
use sqlfront::token::Token;

#[test]
fn cursor_safety_on_exhausted_cursor() {
    // Every consuming operation reports OutOfTokens on an empty cursor
    let mut parser = Parser::from_tokens(vec![]);
    assert!(matches!(parser.pop(), Err(ParserError::OutOfTokens)));
    assert!(matches!(
        parser.expect(&Token::SELECT),
        Err(ParserError::OutOfTokens)
    ));
    assert!(matches!(
        parser.expect_string(),
        Err(ParserError::OutOfTokens)
    ));
    assert!(matches!(
        parser.expect_number(),
        Err(ParserError::OutOfTokens)
    ));
    assert!(matches!(
        parser.expect_identifier(),
        Err(ParserError::OutOfTokens)
    ));
    assert!(parser.peek().is_none());
    assert!(!parser.peek_is(&Token::SELECT));
    assert!(!parser.pop_if(&Token::SELECT));
}

#[test]
fn pop_returns_tokens_in_order() {
    let mut parser = Parser::from_tokens(vec![Token::SELECT, Token::ASTERISK, Token::SEMICOLON]);
    assert_eq!(parser.pop().unwrap(), Token::SELECT);
    assert_eq!(parser.pop().unwrap(), Token::ASTERISK);
    assert_eq!(parser.pop().unwrap(), Token::SEMICOLON);
    assert!(parser.pop().is_err());
}

#[test]
fn peek_does_not_consume() {
    let parser = Parser::from_tokens(vec![Token::SELECT]);
    assert_eq!(parser.peek(), Some(&Token::SELECT));
    assert_eq!(parser.peek(), Some(&Token::SELECT));
    assert!(parser.peek_is(&Token::SELECT));
    assert!(!parser.peek_is(&Token::FROM));
}

#[test]
fn pop_if_consumes_only_on_match() {
    let mut parser = Parser::from_tokens(vec![Token::COMMA, Token::SELECT]);
    assert!(!parser.pop_if(&Token::SELECT));
    assert!(parser.pop_if(&Token::COMMA));
    assert!(parser.pop_if(&Token::SELECT));
    assert!(!parser.pop_if(&Token::SELECT));
}

#[test]
fn expect_mismatch_reports_expected_token() {
    let mut parser = Parser::from_tokens(vec![Token::SELECT]);
    let err = parser.expect(&Token::FROM).unwrap_err();
    assert_eq!(err, ParserError::Expecting("from".to_string()));
}

#[test]
fn expect_payload_variants() {
    let mut parser = Parser::from_tokens(vec![
        Token::StringLiteral("user1".into()),
        Token::NumberLiteral("42".into()),
        Token::Identifier("my_table".into()),
    ]);
    assert_eq!(
        parser.expect_string().unwrap(),
        Token::StringLiteral("user1".into())
    );
    assert_eq!(
        parser.expect_number().unwrap(),
        Token::NumberLiteral("42".into())
    );
    assert_eq!(
        parser.expect_identifier().unwrap(),
        Token::Identifier("my_table".into())
    );
}

#[test]
fn expect_payload_variant_mismatches() {
    let mut parser = Parser::from_tokens(vec![Token::SELECT, Token::SELECT, Token::SELECT]);
    assert_eq!(
        parser.expect_string().unwrap_err(),
        ParserError::Expecting("string literal".to_string())
    );
    assert_eq!(
        parser.expect_number().unwrap_err(),
        ParserError::Expecting("number literal".to_string())
    );
    assert_eq!(
        parser.expect_identifier().unwrap_err(),
        ParserError::Expecting("identifier".to_string())
    );
}
