//! Tests for the finite-state lexer.
use sqlfront::lexer::{Lexer, State};
use sqlfront::token::Token;

#[test]
fn lex_str() {
    let mut parser = Lexer::lex("select * from my_table where row_id > 0;").unwrap();
    let v = vec![
        Token::SELECT,
        Token::ASTERISK,
        Token::FROM,
        Token::Identifier("my_table".into()),
        Token::WHERE,
        Token::Identifier("row_id".into()),
        Token::GREATERTHAN,
        Token::NumberLiteral("0".into()),
        Token::SEMICOLON,
    ];
    for tok in v.into_iter() {
        parser.expect(&tok).unwrap();
    }
}

#[test]
/// Test state transitions from State::Idle -> State::_
fn next_state() {
    let lex = Lexer::new();
    assert_eq!(lex.next_state('.'), Ok(State::Idle));
    assert_eq!(lex.next_state('a'), Ok(State::Text));
    assert_eq!(lex.next_state('9'), Ok(State::Number));
    assert_eq!(lex.next_state('`'), Ok(State::Escape(false)));
    assert_eq!(lex.next_state('<'), Ok(State::Disambiguate));
    assert_eq!(lex.next_state('='), Ok(State::Idle));
}

#[test]
/// Test lexing of an identifier
fn feed_identifier() {
    let mut lex = Lexer::new();

    let s = "my_table";
    for c in s.chars() {
        assert_eq!(lex.feed(c), Ok(State::Text));
    }
    assert_eq!(lex.feed(' '), Ok(State::Idle));
    assert_eq!(lex.tokens.pop(), Some(Token::Identifier(s.into())));
    assert_eq!(lex.state, State::Idle);
}

#[test]
/// Test lexing of a literal
fn feed_literal() {
    let mut lex = Lexer::new();

    // Try lexing a string literal
    assert_eq!(lex.feed('`'), Ok(State::Escape(false)));
    for c in "user_id".chars() {
        assert_eq!(lex.feed(c), Ok(State::Escape(true)));
    }
    assert_eq!(lex.feed('`'), Ok(State::Idle));
    assert_eq!(
        lex.tokens.pop(),
        Some(Token::StringLiteral("user_id".into()))
    );
    assert_eq!(lex.column, 9);
}

#[test]
fn feed_comment() {
    let mut lex = Lexer::new();
    assert_eq!(lex.feed('-'), Ok(State::Disambiguate));
    assert_eq!(lex.feed('-'), Ok(State::Comment));
    for c in "line comment".chars() {
        assert_eq!(lex.feed(c), Ok(State::Comment));
    }
    assert_eq!(lex.feed('\n'), Ok(State::Idle));
}

#[test]
fn feed_statement() {
    let mut lex = Lexer::new();

    let query = "SELECT * FROM my_table WHERE name = `user1`";
    for c in query.chars() {
        lex.feed(c).unwrap();
    }
    assert_eq!(lex.tokens.pop(), Some(Token::StringLiteral("user1".into())));
    assert_eq!(lex.tokens.pop(), Some(Token::EQUAL));
    assert_eq!(lex.tokens.pop(), Some(Token::Identifier("name".into())));
    assert_eq!(lex.tokens.pop(), Some(Token::WHERE));
    assert_eq!(lex.tokens.pop(), Some(Token::Identifier("my_table".into())));
    assert_eq!(lex.tokens.pop(), Some(Token::FROM));
    assert_eq!(lex.tokens.pop(), Some(Token::ASTERISK));
    assert_eq!(lex.tokens.pop(), Some(Token::SELECT));
}

/// Lex a complete input and return the token sequence.
fn lex_tokens(s: &str) -> Vec<Token> {
    let mut parser = Lexer::lex(s).unwrap();
    let mut v = Vec::new();
    while let Ok(t) = parser.pop() {
        v.push(t);
    }
    v
}

#[test]
fn two_character_operators() {
    // "<=" is one token, never LESSTHAN then EQUAL
    assert_eq!(lex_tokens("<="), vec![Token::LESSTHANOREQUAL]);
    assert_eq!(lex_tokens("<>"), vec![Token::NOTEQUAL]);
    assert_eq!(lex_tokens(">="), vec![Token::GREATERTHANOREQUAL]);
    assert_eq!(lex_tokens("||"), vec![Token::DOUBLEPIPE]);
    // A lone "< " resolves to LESSTHAN
    assert_eq!(lex_tokens("< "), vec![Token::LESSTHAN]);
    // A pending operator is flushed at end of input
    assert_eq!(lex_tokens("<"), vec![Token::LESSTHAN]);
    assert_eq!(lex_tokens("+"), vec![Token::PLUS]);
    // The lookahead character is reprocessed on its own
    assert_eq!(
        lex_tokens("<5"),
        vec![Token::LESSTHAN, Token::NumberLiteral("5".into())]
    );
    assert_eq!(
        lex_tokens("< a"),
        vec![Token::LESSTHAN, Token::Identifier("a".into())]
    );
}

#[test]
fn comments_are_elided() {
    // The comment contributes nothing; only the SELECT comes out
    assert_eq!(lex_tokens("-- a comment\nselect"), vec![Token::SELECT]);
    assert_eq!(lex_tokens("-- only a comment\n"), vec![]);
    // A comment at end of input never closes and yields nothing
    assert_eq!(lex_tokens("-- open comment"), vec![]);
}

#[test]
fn string_literals() {
    assert_eq!(
        lex_tokens("`user1`"),
        vec![Token::StringLiteral("user1".into())]
    );
    // A backslash escapes the closing backtick; both characters stay in the
    // literal's content
    assert_eq!(
        lex_tokens("`a\\`b`"),
        vec![Token::StringLiteral("a\\`b".into())]
    );
}

#[test]
fn unterminated_string_literal() {
    // An unterminated literal must fail, not silently truncate
    let err = Lexer::lex("`abc").unwrap_err();
    assert_eq!(err.character, '`');
    assert!(err.expected.contains("closing"));
    // An immediately doubled delimiter does not close the literal, so the
    // input still ends inside it
    assert!(Lexer::lex("``").is_err());
}

#[test]
fn illegal_character_rejection() {
    // '#' from the idle state is fatal, at the right 1-based position
    let err = Lexer::lex("#").unwrap_err();
    assert_eq!(err.character, '#');
    assert_eq!(err.line, 1);
    assert_eq!(err.column, 1);

    let err = Lexer::lex("\n #").unwrap_err();
    assert_eq!(err.character, '#');
    assert_eq!(err.line, 2);
    assert_eq!(err.column, 2);
}

#[test]
fn malformed_identifier_and_number() {
    // A backtick cannot continue an identifier
    let err = Lexer::lex("ab`x").unwrap_err();
    assert_eq!(err.character, '`');
    assert!(err.expected.contains("identifier"));
    // A letter cannot continue a number
    let err = Lexer::lex("1a").unwrap_err();
    assert_eq!(err.character, 'a');
    assert!(err.expected.contains("number"));
    // A lookahead-opening character cannot bound a word: operators next to
    // a word need whitespace
    let err = Lexer::lex("a-b").unwrap_err();
    assert_eq!(err.character, '-');
    assert!(err.expected.contains("identifier"));
}

#[test]
fn number_literals() {
    // Buffered numbers are flushed at end of input
    assert_eq!(lex_tokens("42"), vec![Token::NumberLiteral("42".into())]);
    // One decimal point is part of the number
    assert_eq!(
        lex_tokens("3.14"),
        vec![Token::NumberLiteral("3.14".into())]
    );
    // A second decimal point is a boundary: it ends the number
    assert_eq!(
        lex_tokens("3.1.4"),
        vec![
            Token::NumberLiteral("3.1".into()),
            Token::DOT,
            Token::NumberLiteral("4".into()),
        ]
    );
}

#[test]
fn semicolon_is_emitted() {
    assert_eq!(
        lex_tokens("select;"),
        vec![Token::SELECT, Token::SEMICOLON]
    );
}

#[test]
fn buffered_word_flushed_at_end_of_input() {
    assert_eq!(lex_tokens("select"), vec![Token::SELECT]);
    assert_eq!(
        lex_tokens("my_table"),
        vec![Token::Identifier("my_table".into())]
    );
}

#[test]
fn relex_is_idempotent() {
    // Re-lexing the same valid input gives structurally identical sequences
    let input = "select * from my_table where row_id > 0;";
    let first = lex_tokens(input);
    let second = lex_tokens(input);
    assert_eq!(first, second);
}

#[test]
fn last_token_tracks_output() {
    let mut lex = Lexer::new();
    assert!(lex.last_token().is_none());
    for c in "select ".chars() {
        lex.feed(c).unwrap();
    }
    assert_eq!(lex.last_token(), Some(&Token::SELECT));
}

#[test]
fn empty_input_lexes_to_nothing() {
    let mut parser = Lexer::lex("").unwrap();
    assert!(parser.peek().is_none());
    assert!(parser.pop().is_err());
}
