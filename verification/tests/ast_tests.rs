//! Tests for the grammar rules and the comma-delimited combinator.
use sqlfront::ast::columns::Column;
use sqlfront::ast::create::Create;
use sqlfront::ast::select::Select;
use sqlfront::ast::{Syntax, SyntaxExt};
use sqlfront::lexer::Lexer;
use sqlfront::parser::{Parser, ParserError};
use sqlfront::token::Token;

#[test]
fn comma_delimited() {
    let mut parser = Lexer::lex("select row_1, row_2, row_3 from my_table where row_id > 0;")
        .unwrap();

    parser.pop().unwrap();
    let v = Column::parse_comma_delimited(&mut parser).unwrap();
    let correct = vec![
        Token::Identifier("row_1".into()),
        Token::Identifier("row_2".into()),
        Token::Identifier("row_3".into()),
    ];

    assert_eq!(correct.len(), v.len());
    for (tok, _v) in correct.into_iter().zip(v.into_iter()) {
        match _v {
            Column::Expr(t) => assert_eq!(t, tok),
            _ => panic!("Mismatch!"),
        };
    }
}

#[test]
fn comma_delimited_trailing_comma_fails() {
    // "a," has a comma with no following item: the missing item's failure
    // surfaces, the list is not silently truncated
    let mut parser = Lexer::lex("a,").unwrap();
    let err = Column::parse_comma_delimited(&mut parser).unwrap_err();
    assert!(matches!(err, ParserError::OutOfTokens));
}

#[test]
fn comma_delimited_single_item() {
    let mut parser = Lexer::lex("a from").unwrap();
    let v = Column::parse_comma_delimited(&mut parser).unwrap();
    assert_eq!(v.len(), 1);
    match &v[0] {
        Column::Expr(t) => assert_eq!(*t, Token::Identifier("a".into())),
        _ => panic!("expected an expression column"),
    }
    // The combinator stopped before FROM
    assert!(parser.peek_is(&Token::FROM));
}

#[test]
fn column_rule() {
    // `*` parses to the All variant
    let mut parser = Lexer::lex("*").unwrap();
    assert!(matches!(Column::parse(&mut parser), Ok(Column::All)));
    // Any other token parses to Expr of that token
    let mut parser = Lexer::lex("row_id").unwrap();
    match Column::parse(&mut parser) {
        Ok(Column::Expr(t)) => assert_eq!(t, Token::Identifier("row_id".into())),
        _ => panic!("expected an expression column"),
    }
    // An exhausted cursor fails
    let mut parser = Parser::from_tokens(vec![]);
    assert!(matches!(
        Column::parse(&mut parser),
        Err(ParserError::OutOfTokens)
    ));
}

#[test]
fn select_rule() {
    let mut parser = Lexer::lex("select * from my_table").unwrap();
    assert!(Select::parse(&mut parser).is_ok());
    // The SELECT token was consumed
    assert!(parser.peek_is(&Token::ASTERISK));

    // A statement that does not start with SELECT is rejected
    let mut parser = Lexer::lex("drop table my_table").unwrap();
    let err = Select::parse(&mut parser).unwrap_err();
    assert_eq!(err, ParserError::Expecting("select".to_string()));
}

#[test]
fn create_rule() {
    let mut parser = Lexer::lex("create table my_table").unwrap();
    assert!(Create::parse(&mut parser).is_ok());
    assert!(parser.peek_is(&Token::TABLE));

    let mut parser = Lexer::lex("select").unwrap();
    let err = Create::parse(&mut parser).unwrap_err();
    assert_eq!(err, ParserError::Expecting("create".to_string()));
}

#[test]
fn end_to_end_statement() {
    // Lex, then drive two grammar rules over the cursor
    let mut parser = Lexer::lex("select col_a, col_b from my_table;").unwrap();
    assert!(Select::parse(&mut parser).is_ok());
    let cols = Column::parse_comma_delimited(&mut parser).unwrap();
    assert_eq!(cols.len(), 2);
    parser.expect(&Token::FROM).unwrap();
    parser.expect_identifier().unwrap();
    parser.expect(&Token::SEMICOLON).unwrap();
    assert!(parser.peek().is_none());
}
