//! The closed set of lexical tokens and the rules that classify raw
//! characters and words into them.
use vstd::prelude::*;

verus! {

/// A classified lexical unit: a keyword, a type name, an operator, a
/// delimiter, or a literal carrying its textual payload.
///
/// The derived `PartialEq` is for callers outside the library; verified code
/// compares tokens with [`Token::equals`], whose contract ties the answer to
/// the tokens' models.
#[derive(Debug, PartialEq)]
pub enum Token {
    // keywords
    SELECT,
    FROM,
    WHERE,
    ORDER,
    INSERT,
    INTO,
    CREATE,
    TABLE,
    DROP,
    IF,
    EXISTS,
    NOT,
    NULL,
    DEFAULT,
    SERIAL,
    AND,
    OR,
    // type names
    INTEGER,
    TEXT,
    FLOAT,
    BLOB,
    // operators
    EQUAL,
    NOTEQUAL,
    LESSTHAN,
    LESSTHANOREQUAL,
    GREATERTHAN,
    GREATERTHANOREQUAL,
    PLUS,
    MINUS,
    FORWARDSLASH,
    // blocks
    LEFTPAREN,
    RIGHTPAREN,
    LEFTBRACKET,
    RIGHTBRACKET,
    // other delimiters
    DOT,
    COMMA,
    SEMICOLON,
    ASTERISK,
    AMPERSAND,
    PIPE,
    DOUBLEPIPE,
    // literals
    StringLiteral(String),
    NumberLiteral(String),
    Identifier(String),
}

/// The mathematical model of a [`Token`]: the same tagged value with literal
/// payloads abstracted to character sequences.
pub enum TokenView {
    SELECT,
    FROM,
    WHERE,
    ORDER,
    INSERT,
    INTO,
    CREATE,
    TABLE,
    DROP,
    IF,
    EXISTS,
    NOT,
    NULL,
    DEFAULT,
    SERIAL,
    AND,
    OR,
    INTEGER,
    TEXT,
    FLOAT,
    BLOB,
    EQUAL,
    NOTEQUAL,
    LESSTHAN,
    LESSTHANOREQUAL,
    GREATERTHAN,
    GREATERTHANOREQUAL,
    PLUS,
    MINUS,
    FORWARDSLASH,
    LEFTPAREN,
    RIGHTPAREN,
    LEFTBRACKET,
    RIGHTBRACKET,
    DOT,
    COMMA,
    SEMICOLON,
    ASTERISK,
    AMPERSAND,
    PIPE,
    DOUBLEPIPE,
    StringLiteral(Seq<char>),
    NumberLiteral(Seq<char>),
    Identifier(Seq<char>),
}

impl View for Token {
    type V = TokenView;

    open spec fn view(&self) -> TokenView {
        match self {
            Token::SELECT => TokenView::SELECT,
            Token::FROM => TokenView::FROM,
            Token::WHERE => TokenView::WHERE,
            Token::ORDER => TokenView::ORDER,
            Token::INSERT => TokenView::INSERT,
            Token::INTO => TokenView::INTO,
            Token::CREATE => TokenView::CREATE,
            Token::TABLE => TokenView::TABLE,
            Token::DROP => TokenView::DROP,
            Token::IF => TokenView::IF,
            Token::EXISTS => TokenView::EXISTS,
            Token::NOT => TokenView::NOT,
            Token::NULL => TokenView::NULL,
            Token::DEFAULT => TokenView::DEFAULT,
            Token::SERIAL => TokenView::SERIAL,
            Token::AND => TokenView::AND,
            Token::OR => TokenView::OR,
            Token::INTEGER => TokenView::INTEGER,
            Token::TEXT => TokenView::TEXT,
            Token::FLOAT => TokenView::FLOAT,
            Token::BLOB => TokenView::BLOB,
            Token::EQUAL => TokenView::EQUAL,
            Token::NOTEQUAL => TokenView::NOTEQUAL,
            Token::LESSTHAN => TokenView::LESSTHAN,
            Token::LESSTHANOREQUAL => TokenView::LESSTHANOREQUAL,
            Token::GREATERTHAN => TokenView::GREATERTHAN,
            Token::GREATERTHANOREQUAL => TokenView::GREATERTHANOREQUAL,
            Token::PLUS => TokenView::PLUS,
            Token::MINUS => TokenView::MINUS,
            Token::FORWARDSLASH => TokenView::FORWARDSLASH,
            Token::LEFTPAREN => TokenView::LEFTPAREN,
            Token::RIGHTPAREN => TokenView::RIGHTPAREN,
            Token::LEFTBRACKET => TokenView::LEFTBRACKET,
            Token::RIGHTBRACKET => TokenView::RIGHTBRACKET,
            Token::DOT => TokenView::DOT,
            Token::COMMA => TokenView::COMMA,
            Token::SEMICOLON => TokenView::SEMICOLON,
            Token::ASTERISK => TokenView::ASTERISK,
            Token::AMPERSAND => TokenView::AMPERSAND,
            Token::PIPE => TokenView::PIPE,
            Token::DOUBLEPIPE => TokenView::DOUBLEPIPE,
            Token::StringLiteral(s) => TokenView::StringLiteral(s@),
            Token::NumberLiteral(s) => TokenView::NumberLiteral(s@),
            Token::Identifier(s) => TokenView::Identifier(s@),
        }
    }
}

impl DeepView for Token {
    type V = TokenView;

    open spec fn deep_view(&self) -> TokenView {
        self.view()
    }
}

/// Relies on `alloc::string::String::push`: appends the character to the end
/// of the string.
pub assume_specification[ String::push ](s: &mut String, ch: char)
    ensures
        final(s)@ == old(s)@.push(ch),
;

/// The single characters that map to a one-character token, and the token
/// each maps to.
pub open spec fn char_token(c: char) -> Option<TokenView> {
    match c {
        '=' => Some(TokenView::EQUAL),
        '<' => Some(TokenView::LESSTHAN),
        '>' => Some(TokenView::GREATERTHAN),
        '+' => Some(TokenView::PLUS),
        '-' => Some(TokenView::MINUS),
        '(' => Some(TokenView::LEFTPAREN),
        '[' => Some(TokenView::LEFTBRACKET),
        ')' => Some(TokenView::RIGHTPAREN),
        ']' => Some(TokenView::RIGHTBRACKET),
        '.' => Some(TokenView::DOT),
        ',' => Some(TokenView::COMMA),
        ';' => Some(TokenView::SEMICOLON),
        '*' => Some(TokenView::ASTERISK),
        '&' => Some(TokenView::AMPERSAND),
        '|' => Some(TokenView::PIPE),
        '/' => Some(TokenView::FORWARDSLASH),
        _ => None,
    }
}

/// Case folding of a single character: an ASCII capital letter becomes its
/// lowercase counterpart, every other character is unchanged.
pub open spec fn fold_char(c: char) -> char {
    if 'A' <= c && c <= 'Z' {
        ((c as u32) + 32) as char
    } else {
        c
    }
}

/// Case folding of a word, character by character.
pub open spec fn fold_chars(s: Seq<char>) -> Seq<char> {
    s.map_values(|c: char| fold_char(c))
}

impl Token {
    /// Match a character into a token.
    pub fn from_char(c: char) -> (r: Option<Token>)
        ensures
            r.deep_view() == char_token(c),
    {
        match c {
            '=' => Some(Token::EQUAL),
            '<' => Some(Token::LESSTHAN),
            '>' => Some(Token::GREATERTHAN),
            '+' => Some(Token::PLUS),
            '-' => Some(Token::MINUS),
            '(' => Some(Token::LEFTPAREN),
            '[' => Some(Token::LEFTBRACKET),
            ')' => Some(Token::RIGHTPAREN),
            ']' => Some(Token::RIGHTBRACKET),
            '.' => Some(Token::DOT),
            ',' => Some(Token::COMMA),
            ';' => Some(Token::SEMICOLON),
            '*' => Some(Token::ASTERISK),
            '&' => Some(Token::AMPERSAND),
            '|' => Some(Token::PIPE),
            '/' => Some(Token::FORWARDSLASH),
            _ => None,
        }
    }
}

/// Case folding of a single character, executably.
fn fold_char_exec(c: char) -> (r: char)
    ensures
        r == fold_char(c),
{
    if 'A' <= c && c <= 'Z' {
        ((c as u8) + 32) as char
    } else {
        c
    }
}

/// Classification of a word: fold it to lowercase, match it against the
/// fixed keyword and type-name table, and treat every non-match as an
/// identifier carrying the folded word.
pub open spec fn classify_word(w: Seq<char>) -> TokenView {
    let f = fold_chars(w);
    if f == "select"@ {
        TokenView::SELECT
    } else if f == "from"@ {
        TokenView::FROM
    } else if f == "where"@ {
        TokenView::WHERE
    } else if f == "order"@ {
        TokenView::ORDER
    } else if f == "insert"@ {
        TokenView::INSERT
    } else if f == "into"@ {
        TokenView::INTO
    } else if f == "create"@ {
        TokenView::CREATE
    } else if f == "table"@ {
        TokenView::TABLE
    } else if f == "drop"@ {
        TokenView::DROP
    } else if f == "if"@ {
        TokenView::IF
    } else if f == "exists"@ {
        TokenView::EXISTS
    } else if f == "not"@ {
        TokenView::NOT
    } else if f == "null"@ {
        TokenView::NULL
    } else if f == "default"@ {
        TokenView::DEFAULT
    } else if f == "serial"@ {
        TokenView::SERIAL
    } else if f == "and"@ {
        TokenView::AND
    } else if f == "or"@ {
        TokenView::OR
    } else if f == "int"@ || f == "integer"@ {
        TokenView::INTEGER
    } else if f == "text"@ {
        TokenView::TEXT
    } else if f == "float"@ {
        TokenView::FLOAT
    } else if f == "blob"@ {
        TokenView::BLOB
    } else {
        TokenView::Identifier(f)
    }
}

/// Case folding of a word, executably.
fn fold_str(s: &str) -> (r: String)
    ensures
        r@ == fold_chars(s@),
{
    let n = s.unicode_len();
    let mut folded = String::new();
    for i in 0..n
        invariant
            n == s@.len(),
            folded@ == fold_chars(s@.subrange(0, i as int)),
    {
        let c = s.get_char(i);
        folded.push(fold_char_exec(c));
        proof {
            assert(s@.subrange(0, i + 1).map_values(|ch: char| fold_char(ch)) =~= s@.subrange(
                0,
                i as int,
            ).map_values(|ch: char| fold_char(ch)).push(fold_char(s@[i as int])));
        }
    }
    proof {
        assert(s@.subrange(0, n as int) =~= s@);
    }
    folded
}

impl Token {
    /// Match a word into either a keyword or a type name, case-insensitively,
    /// or fall back to an identifier holding the lowercased word.
    pub fn from_str(s: &str) -> (t: Token)
        ensures
            t@ == classify_word(s@),
    {
        let folded = fold_str(s);
        if folded == "select".to_owned() {
            Token::SELECT
        } else if folded == "from".to_owned() {
            Token::FROM
        } else if folded == "where".to_owned() {
            Token::WHERE
        } else if folded == "order".to_owned() {
            Token::ORDER
        } else if folded == "insert".to_owned() {
            Token::INSERT
        } else if folded == "into".to_owned() {
            Token::INTO
        } else if folded == "create".to_owned() {
            Token::CREATE
        } else if folded == "table".to_owned() {
            Token::TABLE
        } else if folded == "drop".to_owned() {
            Token::DROP
        } else if folded == "if".to_owned() {
            Token::IF
        } else if folded == "exists".to_owned() {
            Token::EXISTS
        } else if folded == "not".to_owned() {
            Token::NOT
        } else if folded == "null".to_owned() {
            Token::NULL
        } else if folded == "default".to_owned() {
            Token::DEFAULT
        } else if folded == "serial".to_owned() {
            Token::SERIAL
        } else if folded == "and".to_owned() {
            Token::AND
        } else if folded == "or".to_owned() {
            Token::OR
        } else if folded == "int".to_owned() || folded == "integer".to_owned() {
            Token::INTEGER
        } else if folded == "text".to_owned() {
            Token::TEXT
        } else if folded == "float".to_owned() {
            Token::FLOAT
        } else if folded == "blob".to_owned() {
            Token::BLOB
        } else {
            Token::Identifier(folded)
        }
    }
}

impl Token {
    /// Structural equality of two tokens: the same tag, and for literals the
    /// same payload text.
    pub fn equals(&self, other: &Token) -> (r: bool)
        ensures
            r == (self@ == other@),
    {
        match (self, other) {
            (Token::SELECT, Token::SELECT) => true,
            (Token::FROM, Token::FROM) => true,
            (Token::WHERE, Token::WHERE) => true,
            (Token::ORDER, Token::ORDER) => true,
            (Token::INSERT, Token::INSERT) => true,
            (Token::INTO, Token::INTO) => true,
            (Token::CREATE, Token::CREATE) => true,
            (Token::TABLE, Token::TABLE) => true,
            (Token::DROP, Token::DROP) => true,
            (Token::IF, Token::IF) => true,
            (Token::EXISTS, Token::EXISTS) => true,
            (Token::NOT, Token::NOT) => true,
            (Token::NULL, Token::NULL) => true,
            (Token::DEFAULT, Token::DEFAULT) => true,
            (Token::SERIAL, Token::SERIAL) => true,
            (Token::AND, Token::AND) => true,
            (Token::OR, Token::OR) => true,
            (Token::INTEGER, Token::INTEGER) => true,
            (Token::TEXT, Token::TEXT) => true,
            (Token::FLOAT, Token::FLOAT) => true,
            (Token::BLOB, Token::BLOB) => true,
            (Token::EQUAL, Token::EQUAL) => true,
            (Token::NOTEQUAL, Token::NOTEQUAL) => true,
            (Token::LESSTHAN, Token::LESSTHAN) => true,
            (Token::LESSTHANOREQUAL, Token::LESSTHANOREQUAL) => true,
            (Token::GREATERTHAN, Token::GREATERTHAN) => true,
            (Token::GREATERTHANOREQUAL, Token::GREATERTHANOREQUAL) => true,
            (Token::PLUS, Token::PLUS) => true,
            (Token::MINUS, Token::MINUS) => true,
            (Token::FORWARDSLASH, Token::FORWARDSLASH) => true,
            (Token::LEFTPAREN, Token::LEFTPAREN) => true,
            (Token::RIGHTPAREN, Token::RIGHTPAREN) => true,
            (Token::LEFTBRACKET, Token::LEFTBRACKET) => true,
            (Token::RIGHTBRACKET, Token::RIGHTBRACKET) => true,
            (Token::DOT, Token::DOT) => true,
            (Token::COMMA, Token::COMMA) => true,
            (Token::SEMICOLON, Token::SEMICOLON) => true,
            (Token::ASTERISK, Token::ASTERISK) => true,
            (Token::AMPERSAND, Token::AMPERSAND) => true,
            (Token::PIPE, Token::PIPE) => true,
            (Token::DOUBLEPIPE, Token::DOUBLEPIPE) => true,
            (Token::StringLiteral(x), Token::StringLiteral(y)) => *x == *y,
            (Token::NumberLiteral(x), Token::NumberLiteral(y)) => *x == *y,
            (Token::Identifier(x), Token::Identifier(y)) => *x == *y,
            _ => false,
        }
    }
}

/// The canonical source text of a token, used in parse-error descriptions:
/// the lowercase word of a keyword or type name, the character(s) of an
/// operator or delimiter, and the payload of a literal.
pub open spec fn token_desc(t: TokenView) -> Seq<char> {
    match t {
        TokenView::SELECT => "select"@,
        TokenView::FROM => "from"@,
        TokenView::WHERE => "where"@,
        TokenView::ORDER => "order"@,
        TokenView::INSERT => "insert"@,
        TokenView::INTO => "into"@,
        TokenView::CREATE => "create"@,
        TokenView::TABLE => "table"@,
        TokenView::DROP => "drop"@,
        TokenView::IF => "if"@,
        TokenView::EXISTS => "exists"@,
        TokenView::NOT => "not"@,
        TokenView::NULL => "null"@,
        TokenView::DEFAULT => "default"@,
        TokenView::SERIAL => "serial"@,
        TokenView::AND => "and"@,
        TokenView::OR => "or"@,
        TokenView::INTEGER => "integer"@,
        TokenView::TEXT => "text"@,
        TokenView::FLOAT => "float"@,
        TokenView::BLOB => "blob"@,
        TokenView::EQUAL => "="@,
        TokenView::NOTEQUAL => "<>"@,
        TokenView::LESSTHAN => "<"@,
        TokenView::LESSTHANOREQUAL => "<="@,
        TokenView::GREATERTHAN => ">"@,
        TokenView::GREATERTHANOREQUAL => ">="@,
        TokenView::PLUS => "+"@,
        TokenView::MINUS => "-"@,
        TokenView::FORWARDSLASH => "/"@,
        TokenView::LEFTPAREN => "("@,
        TokenView::RIGHTPAREN => ")"@,
        TokenView::LEFTBRACKET => "["@,
        TokenView::RIGHTBRACKET => "]"@,
        TokenView::DOT => "."@,
        TokenView::COMMA => ","@,
        TokenView::SEMICOLON => ";"@,
        TokenView::ASTERISK => "*"@,
        TokenView::AMPERSAND => "&"@,
        TokenView::PIPE => "|"@,
        TokenView::DOUBLEPIPE => "||"@,
        TokenView::StringLiteral(s) => s,
        TokenView::NumberLiteral(s) => s,
        TokenView::Identifier(s) => s,
    }
}

impl Token {
    /// The canonical source text of this token, for error messages.
    pub fn describe(&self) -> (r: String)
        ensures
            r@ == token_desc(self@),
    {
        match self {
            Token::SELECT => "select".to_owned(),
            Token::FROM => "from".to_owned(),
            Token::WHERE => "where".to_owned(),
            Token::ORDER => "order".to_owned(),
            Token::INSERT => "insert".to_owned(),
            Token::INTO => "into".to_owned(),
            Token::CREATE => "create".to_owned(),
            Token::TABLE => "table".to_owned(),
            Token::DROP => "drop".to_owned(),
            Token::IF => "if".to_owned(),
            Token::EXISTS => "exists".to_owned(),
            Token::NOT => "not".to_owned(),
            Token::NULL => "null".to_owned(),
            Token::DEFAULT => "default".to_owned(),
            Token::SERIAL => "serial".to_owned(),
            Token::AND => "and".to_owned(),
            Token::OR => "or".to_owned(),
            Token::INTEGER => "integer".to_owned(),
            Token::TEXT => "text".to_owned(),
            Token::FLOAT => "float".to_owned(),
            Token::BLOB => "blob".to_owned(),
            Token::EQUAL => "=".to_owned(),
            Token::NOTEQUAL => "<>".to_owned(),
            Token::LESSTHAN => "<".to_owned(),
            Token::LESSTHANOREQUAL => "<=".to_owned(),
            Token::GREATERTHAN => ">".to_owned(),
            Token::GREATERTHANOREQUAL => ">=".to_owned(),
            Token::PLUS => "+".to_owned(),
            Token::MINUS => "-".to_owned(),
            Token::FORWARDSLASH => "/".to_owned(),
            Token::LEFTPAREN => "(".to_owned(),
            Token::RIGHTPAREN => ")".to_owned(),
            Token::LEFTBRACKET => "[".to_owned(),
            Token::RIGHTBRACKET => "]".to_owned(),
            Token::DOT => ".".to_owned(),
            Token::COMMA => ",".to_owned(),
            Token::SEMICOLON => ";".to_owned(),
            Token::ASTERISK => "*".to_owned(),
            Token::AMPERSAND => "&".to_owned(),
            Token::PIPE => "|".to_owned(),
            Token::DOUBLEPIPE => "||".to_owned(),
            Token::StringLiteral(s) => s.clone(),
            Token::NumberLiteral(s) => s.clone(),
            Token::Identifier(s) => s.clone(),
        }
    }
}

/// Case folding is idempotent: folding an already folded word changes
/// nothing.
pub proof fn lemma_fold_idempotent(w: Seq<char>)
    ensures
        fold_chars(fold_chars(w)) == fold_chars(w),
{
    assert(fold_chars(fold_chars(w)) =~= fold_chars(w)) by {
        assert forall|i: int| 0 <= i < w.len() implies fold_char(fold_char(w[i])) == fold_char(
            w[i],
        ) by {
            let c = w[i];
            if 'A' <= c && c <= 'Z' {
                assert(fold_char(c) == ((c as u32) + 32) as char);
            }
        }
    }
}

/// Case-insensitivity of word classification: two words that fold to the
/// same lowercase text classify to the same token. In particular any word
/// classifies like its own lowercase form, by [`lemma_fold_idempotent`].
pub proof fn lemma_classify_case_insensitive(w1: Seq<char>, w2: Seq<char>)
    requires
        fold_chars(w1) == fold_chars(w2),
    ensures
        classify_word(w1) == classify_word(w2),
{
}

} // verus!
