//! Tests for character and word classification.
use sqlfront::token::Token;

#[test]
fn from_char() {
    // Valid character
    assert_eq!(Token::from_char('.'), Some(Token::DOT));
    // Invalid character
    assert_eq!(Token::from_char('#'), None);
}

#[test]
fn from_str() {
    // Everything is case insensitive
    assert_eq!(Token::from_str("SEleCT"), Token::SELECT);
    assert_eq!(Token::from_str("DROP"), Token::DROP);
    // All identifiers are stored as lower case
    assert_eq!(
        Token::from_str("User_id"),
        Token::Identifier("user_id".into())
    );
}

#[test]
fn from_str_keyword_table() {
    assert_eq!(Token::from_str("from"), Token::FROM);
    assert_eq!(Token::from_str("WHERE"), Token::WHERE);
    assert_eq!(Token::from_str("Order"), Token::ORDER);
    assert_eq!(Token::from_str("insert"), Token::INSERT);
    assert_eq!(Token::from_str("into"), Token::INTO);
    assert_eq!(Token::from_str("create"), Token::CREATE);
    assert_eq!(Token::from_str("table"), Token::TABLE);
    assert_eq!(Token::from_str("if"), Token::IF);
    assert_eq!(Token::from_str("exists"), Token::EXISTS);
    assert_eq!(Token::from_str("not"), Token::NOT);
    assert_eq!(Token::from_str("null"), Token::NULL);
    assert_eq!(Token::from_str("default"), Token::DEFAULT);
    assert_eq!(Token::from_str("serial"), Token::SERIAL);
    assert_eq!(Token::from_str("and"), Token::AND);
    assert_eq!(Token::from_str("or"), Token::OR);
    // Both spellings of the integer type name
    assert_eq!(Token::from_str("int"), Token::INTEGER);
    assert_eq!(Token::from_str("INTEGER"), Token::INTEGER);
    assert_eq!(Token::from_str("text"), Token::TEXT);
    assert_eq!(Token::from_str("float"), Token::FLOAT);
    assert_eq!(Token::from_str("blob"), Token::BLOB);
}

#[test]
fn from_str_identifier_case_folding() {
    // The payload is folded, not kept verbatim
    assert_eq!(
        Token::from_str("User_Id"),
        Token::Identifier("user_id".into())
    );
    // Digits and underscores pass through unchanged
    assert_eq!(
        Token::from_str("COL_9"),
        Token::Identifier("col_9".into())
    );
    // A keyword with trailing content is an identifier
    assert_eq!(
        Token::from_str("selected"),
        Token::Identifier("selected".into())
    );
}

#[test]
fn describe_tokens() {
    assert_eq!(Token::SELECT.describe(), "select".to_string());
    assert_eq!(Token::LESSTHANOREQUAL.describe(), "<=".to_string());
    assert_eq!(
        Token::Identifier("my_table".into()).describe(),
        "my_table".to_string()
    );
}
