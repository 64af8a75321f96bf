//! The finite-state lexer: it consumes source text one character at a time,
//! tracking 1-based line and column, and emits the ordered token sequence or
//! a fatal lexical error at the first illegal character.
//!
//! String literals are delimited by backticks. The escaping contract is: a
//! backslash immediately before a backtick keeps that backtick as literal
//! content (the backslash itself also stays in the literal); any other
//! backtick after at least one consumed character closes the literal.
//!
//! At end of input a buffered word or number, or a pending operator
//! character, is flushed as a final token; input that ends inside a backtick
//! literal is rejected as unterminated.
use crate::parser::Parser;
use crate::token::{char_token, classify_word, Token, TokenView};
use vstd::prelude::*;

verus! {

/// The outcome of feeding the lexer: the state it moved to, or a fatal
/// lexical error.
pub type LexerResult<T> = Result<T, LexError>;

/// The lexer's finite-state-machine state.
#[derive(Debug, Clone, Copy, PartialEq, Eq, Structural)]
pub enum State {
    /// At a token boundary: idle or inside whitespace.
    Idle,
    /// Reading a word (keyword or identifier) into the buffer.
    Text,
    /// Reading a number literal into the buffer.
    Number,
    /// Holding one of `< > | - +`, waiting for one character of lookahead.
    Disambiguate,
    /// Inside a line comment, discarding until the newline.
    Comment,
    /// Transient state for single-character operator emission.
    Operator,
    /// Inside a backtick-delimited string literal; the flag records whether
    /// at least one character has been consumed.
    Escape(bool),
}

/// A fatal lexical error: the offending character, its 1-based position,
/// and a description of what was expected instead.
#[derive(Debug, PartialEq)]
pub struct LexError {
    /// The character that could not be accepted.
    pub character: char,
    /// 1-based line of the offending character.
    pub line: usize,
    /// 1-based column of the offending character.
    pub column: usize,
    /// What the lexer expected at this point.
    pub expected: String,
}

/// The mathematical model of a [`LexError`].
#[verifier::ext_equal]
pub struct LexErrorView {
    pub character: char,
    pub line: nat,
    pub column: nat,
    pub expected: Seq<char>,
}

impl View for LexError {
    type V = LexErrorView;

    open spec fn view(&self) -> LexErrorView {
        LexErrorView {
            character: self.character,
            line: self.line as nat,
            column: self.column as nat,
            expected: self.expected@,
        }
    }
}

/// The mathematical model of the whole lexer: emitted tokens, one character
/// of lookback, the in-progress buffer, the machine state, and the position.
#[verifier::ext_equal]
pub struct LexState {
    pub tokens: Seq<TokenView>,
    pub last_char: char,
    pub buffer: Seq<char>,
    pub state: State,
    pub line: nat,
    pub column: nat,
}

/// An ASCII letter.
pub open spec fn is_letter(c: char) -> bool {
    ('a' <= c && c <= 'z') || ('A' <= c && c <= 'Z')
}

/// An ASCII digit.
pub open spec fn is_digit(c: char) -> bool {
    '0' <= c && c <= '9'
}

/// A whitespace character recognized by the lexer.
pub open spec fn is_space(c: char) -> bool {
    c == ' ' || c == '\t' || c == '\n'
}

/// A character that may continue a word: a letter, a digit, or `_`.
pub open spec fn is_word_char(c: char) -> bool {
    is_letter(c) || is_digit(c) || c == '_'
}

/// A character that opens one character of lookahead because it may start a
/// two-character operator or a comment.
pub open spec fn is_disamb_char(c: char) -> bool {
    c == '<' || c == '>' || c == '|' || c == '-' || c == '+'
}

/// The state that one character reaches from [`State::Idle`], or `None` for
/// an illegal character.
pub open spec fn idle_class(c: char) -> Option<State> {
    if is_letter(c) || c == '_' {
        Some(State::Text)
    } else if is_digit(c) {
        Some(State::Number)
    } else if c == '`' {
        Some(State::Escape(false))
    } else if is_space(c) || c == ';' {
        Some(State::Idle)
    } else if is_disamb_char(c) {
        Some(State::Disambiguate)
    } else if char_token(c) is Some {
        Some(State::Idle)
    } else {
        None
    }
}

/// Increment that sticks at `usize::MAX` instead of wrapping, so position
/// tracking can never overflow.
pub open spec fn sat_inc(n: nat) -> nat {
    if n < usize::MAX as nat {
        n + 1
    } else {
        n
    }
}

/// Position update for one consumed character: a newline advances the line
/// and resets the column, anything else advances the column.
pub open spec fn advance_pos(ls: LexState, c: char) -> LexState {
    if c == '\n' {
        LexState { line: sat_inc(ls.line), column: 0, ..ls }
    } else {
        LexState { column: sat_inc(ls.column), ..ls }
    }
}

/// The error value reported for `c` at the current position.
pub open spec fn lex_error(ls: LexState, c: char, expected: Seq<char>) -> LexErrorView {
    LexErrorView { character: c, line: ls.line, column: ls.column, expected }
}

/// One character taken at a token boundary: it starts a word, a number or a
/// string literal, opens lookahead, emits a one-character token, or is
/// rejected.
pub open spec fn spec_idle_step(ls: LexState, c: char) -> Result<LexState, LexErrorView> {
    match idle_class(c) {
        Some(st) => {
            let with_tok = if st is Idle {
                match char_token(c) {
                    Some(t) => LexState { tokens: ls.tokens.push(t), ..ls },
                    None => ls,
                }
            } else {
                ls
            };
            let with_buf = if st is Text || st is Number {
                LexState { buffer: with_tok.buffer.push(c), ..with_tok }
            } else {
                with_tok
            };
            Ok(LexState { state: st, ..with_buf })
        },
        None => Err(lex_error(ls, c, "<>|-+()[].,*&|/="@)),
    }
}

/// The transition relation of the lexer: one consumed character maps the
/// current state to the next state or to a fatal error.
pub open spec fn spec_feed(ls0: LexState, c: char) -> Result<LexState, LexErrorView> {
    let ls = advance_pos(ls0, c);
    let stepped: Result<LexState, LexErrorView> = match ls.state {
        State::Comment => Ok(
            LexState {
                state: if c == '\n' {
                    State::Idle
                } else {
                    State::Comment
                },
                ..ls
            },
        ),
        State::Idle => spec_idle_step(ls, c),
        State::Operator => Ok(LexState { state: State::Idle, ..ls }),
        State::Text => {
            if is_word_char(c) {
                Ok(LexState { buffer: ls.buffer.push(c), ..ls })
            } else if idle_class(c) == Some(State::Idle) {
                let flushed = LexState {
                    tokens: ls.tokens.push(classify_word(ls.buffer)),
                    buffer: Seq::<char>::empty(),
                    ..ls
                };
                let emitted = match char_token(c) {
                    Some(t) => LexState { tokens: flushed.tokens.push(t), ..flushed },
                    None => flushed,
                };
                Ok(LexState { state: State::Idle, ..emitted })
            } else {
                Err(lex_error(ls, c, "valid identifier [a-Z|0-9|_]"@))
            }
        },
        State::Number => {
            if is_digit(c) {
                Ok(LexState { buffer: ls.buffer.push(c), ..ls })
            } else if c == '.' && !ls.buffer.contains('.') {
                Ok(LexState { buffer: ls.buffer.push(c), ..ls })
            } else if idle_class(c) == Some(State::Idle) {
                let flushed = LexState {
                    tokens: ls.tokens.push(TokenView::NumberLiteral(ls.buffer)),
                    buffer: Seq::<char>::empty(),
                    ..ls
                };
                let emitted = match char_token(c) {
                    Some(t) => LexState { tokens: flushed.tokens.push(t), ..flushed },
                    None => flushed,
                };
                Ok(LexState { state: State::Idle, ..emitted })
            } else {
                Err(lex_error(ls, c, "valid number [0-9|.]"@))
            }
        },
        State::Escape(escaped) => {
            if c == '`' {
                if !escaped {
                    Ok(ls)
                } else if ls.last_char == '\\' {
                    Ok(LexState { buffer: ls.buffer.push('`'), ..ls })
                } else {
                    Ok(
                        LexState {
                            tokens: ls.tokens.push(TokenView::StringLiteral(ls.buffer)),
                            buffer: Seq::<char>::empty(),
                            state: State::Idle,
                            ..ls
                        },
                    )
                }
            } else {
                Ok(LexState { buffer: ls.buffer.push(c), state: State::Escape(true), ..ls })
            }
        },
        State::Disambiguate => {
            let p = ls.last_char;
            if p == '-' && c == '-' {
                Ok(LexState { state: State::Comment, ..ls })
            } else if p == '<' && c == '>' {
                Ok(LexState { tokens: ls.tokens.push(TokenView::NOTEQUAL), state: State::Idle, ..ls })
            } else if p == '<' && c == '=' {
                Ok(
                    LexState {
                        tokens: ls.tokens.push(TokenView::LESSTHANOREQUAL),
                        state: State::Idle,
                        ..ls
                    },
                )
            } else if p == '>' && c == '=' {
                Ok(
                    LexState {
                        tokens: ls.tokens.push(TokenView::GREATERTHANOREQUAL),
                        state: State::Idle,
                        ..ls
                    },
                )
            } else if p == '|' && c == '|' {
                Ok(LexState { tokens: ls.tokens.push(TokenView::DOUBLEPIPE), state: State::Idle, ..ls })
            } else {
                let resolved = match char_token(p) {
                    Some(t) => LexState { tokens: ls.tokens.push(t), ..ls },
                    None => ls,
                };
                spec_idle_step(LexState { state: State::Idle, ..resolved }, c)
            }
        },
    };
    match stepped {
        Ok(ls2) => Ok(LexState { last_char: c, ..ls2 }),
        Err(e) => Err(e),
    }
}

/// Well-formedness of a lexer state: the buffer only accumulates in the
/// `Text`, `Number` and `Escape` states, and lookahead is only pending on a
/// character that can open it.
pub open spec fn wf(ls: LexState) -> bool {
    &&& (ls.state is Idle || ls.state is Comment || ls.state is Disambiguate
        || ls.state is Operator) ==> ls.buffer.len() == 0
    &&& ls.state is Disambiguate ==> is_disamb_char(ls.last_char)
}

/// The state a fresh lexer starts in.
pub open spec fn init_state() -> LexState {
    LexState {
        tokens: Seq::<TokenView>::empty(),
        last_char: ' ',
        buffer: Seq::<char>::empty(),
        state: State::Idle,
        line: 1,
        column: 0,
    }
}

/// The lexer run over a whole character sequence, stopping at the first
/// error.
pub open spec fn spec_run(ls: LexState, s: Seq<char>) -> Result<LexState, LexErrorView>
    decreases s.len(),
{
    if s.len() == 0 {
        Ok(ls)
    } else {
        match spec_feed(ls, s[0]) {
            Ok(ls2) => spec_run(ls2, s.drop_first()),
            Err(e) => Err(e),
        }
    }
}

/// End-of-input resolution: flush a buffered word, number or pending
/// operator character as a final token; reject input that ends inside a
/// string literal.
pub open spec fn spec_eof(ls: LexState) -> Result<Seq<TokenView>, LexErrorView> {
    match ls.state {
        State::Text => Ok(ls.tokens.push(classify_word(ls.buffer))),
        State::Number => Ok(ls.tokens.push(TokenView::NumberLiteral(ls.buffer))),
        State::Disambiguate => match char_token(ls.last_char) {
            Some(t) => Ok(ls.tokens.push(t)),
            None => Ok(ls.tokens),
        },
        State::Escape(_) => Err(
            LexErrorView {
                character: '`',
                line: ls.line,
                column: ls.column,
                expected: "closing ` before end of input"@,
            },
        ),
        _ => Ok(ls.tokens),
    }
}

/// The token sequence of a complete source text, or its first lexical
/// error.
pub open spec fn spec_lex(s: Seq<char>) -> Result<Seq<TokenView>, LexErrorView> {
    match spec_run(init_state(), s) {
        Ok(ls) => spec_eof(ls),
        Err(e) => Err(e),
    }
}

/// Splitting a run at any point composes: running over `a + b` is running
/// over `a`, then over `b` from where `a` left off.
proof fn lemma_run_append(ls: LexState, a: Seq<char>, b: Seq<char>)
    ensures
        spec_run(ls, a + b) == (match spec_run(ls, a) {
            Ok(m) => spec_run(m, b),
            Err(e) => Err::<LexState, LexErrorView>(e),
        }),
    decreases a.len(),
{
    if a.len() == 0 {
        assert(a + b =~= b);
    } else {
        assert((a + b)[0] == a[0]);
        assert((a + b).drop_first() =~= a.drop_first() + b);
        match spec_feed(ls, a[0]) {
            Ok(ls2) => {
                lemma_run_append(ls2, a.drop_first(), b);
            },
            Err(e) => {},
        }
    }
}

/// Extending a run by one character applies one more transition.
proof fn lemma_run_snoc(ls: LexState, t: Seq<char>, c: char)
    ensures
        spec_run(ls, t.push(c)) == (match spec_run(ls, t) {
            Ok(m) => spec_feed(m, c),
            Err(e) => Err::<LexState, LexErrorView>(e),
        }),
{
    assert(t.push(c) =~= t + seq![c]);
    lemma_run_append(ls, t, seq![c]);
    match spec_run(ls, t) {
        Ok(m) => {
            assert(seq![c].len() == 1);
            assert(seq![c][0] == c);
            assert(seq![c].drop_first() =~= Seq::<char>::empty());
            match spec_feed(m, c) {
                Ok(m2) => {
                    assert(spec_run(m2, Seq::<char>::empty()) == Ok::<LexState, LexErrorView>(m2));
                    assert(spec_run(m, seq![c]) == spec_feed(m, c));
                },
                Err(e) => {},
            }
        },
        Err(e) => {},
    }
}

/// Lexing is deterministic: the outcome is a function of the input text
/// alone, so re-lexing the same valid input produces a structurally
/// identical token sequence (and the same error on invalid input).
pub proof fn lemma_lex_deterministic(
    s: Seq<char>,
    r1: Result<Seq<TokenView>, LexErrorView>,
    r2: Result<Seq<TokenView>, LexErrorView>,
)
    requires
        r1 == spec_lex(s),
        r2 == spec_lex(s),
    ensures
        r1 == r2,
{
}

/// Finite state machine for lexical analysis of queries.
#[derive(Debug)]
pub struct Lexer {
    /// Tokens emitted so far, in source order.
    pub tokens: Vec<Token>,
    /// Last consumed character.
    pub last_char: char,
    /// Raw characters of the token being lexed.
    pub buffer: String,
    /// Current machine state.
    pub state: State,
    /// 1-based line number of the last consumed character.
    pub line: usize,
    /// 1-based column number of the last consumed character.
    pub column: usize,
}

impl View for Lexer {
    type V = LexState;

    open spec fn view(&self) -> LexState {
        LexState {
            tokens: self.tokens.deep_view(),
            last_char: self.last_char,
            buffer: self.buffer@,
            state: self.state,
            line: self.line as nat,
            column: self.column as nat,
        }
    }
}

/// Does the text contain the given character?
fn str_contains_char(s: &str, needle: char) -> (r: bool)
    ensures
        r == s@.contains(needle),
{
    let n = s.unicode_len();
    for i in 0..n
        invariant
            n == s@.len(),
            forall|j: int| 0 <= j < i ==> s@[j] != needle,
    {
        if s.get_char(i) == needle {
            assert(s@.contains(needle)) by {
                assert(s@[i as int] == needle);
            }
            return true;
        }
    }
    false
}

impl Lexer {
    /// A fresh lexer, idle at the start of the input.
    pub fn new() -> (r: Lexer)
        ensures
            r@ == init_state(),
            wf(r@),
    {
        let l = Lexer {
            tokens: Vec::new(),
            last_char: ' ',
            buffer: String::new(),
            state: State::Idle,
            line: 1,
            column: 0,
        };
        proof {
            assert(l@ =~= init_state());
        }
        l
    }

    /// Build the error reported for `c` at the current position.
    pub fn error(&self, c: char, expected: &str) -> (r: LexerResult<State>)
        ensures
            r matches Err(e) && e@ == lex_error(self@, c, expected@),
    {
        Err(
            LexError {
                character: c,
                line: self.line,
                column: self.column,
                expected: expected.to_owned(),
            },
        )
    }

    /// Retrieve the last emitted token, if any.
    pub fn last_token(&self) -> (r: Option<&Token>)
        ensures
            match r {
                Some(t) => self@.tokens.len() > 0 && t@ == self@.tokens.last(),
                None => self@.tokens.len() == 0,
            },
    {
        if self.tokens.len() > 0 {
            Some(&self.tokens[self.tokens.len() - 1])
        } else {
            None
        }
    }

    /// The state one character reaches from [`State::Idle`], without
    /// position bookkeeping.
    fn classify_idle(c: char) -> (r: Option<State>)
        ensures
            r == idle_class(c),
    {
        if ('a' <= c && c <= 'z') || ('A' <= c && c <= 'Z') || c == '_' {
            Some(State::Text)
        } else if '0' <= c && c <= '9' {
            Some(State::Number)
        } else if c == '`' {
            Some(State::Escape(false))
        } else if c == ' ' || c == '\t' || c == '\n' || c == ';' {
            Some(State::Idle)
        } else if c == '<' || c == '>' || c == '|' || c == '-' || c == '+' {
            Some(State::Disambiguate)
        } else {
            match Token::from_char(c) {
                Some(_) => Some(State::Idle),
                None => None,
            }
        }
    }

    /// Transition to the next state from [`State::Idle`].
    pub fn next_state(&self, c: char) -> (r: LexerResult<State>)
        ensures
            match idle_class(c) {
                Some(st) => r matches Ok(s2) && s2 == st,
                None => r matches Err(e) && e@ == lex_error(self@, c, "<>|-+()[].,*&|/="@),
            },
    {
        match Lexer::classify_idle(c) {
            Some(st) => Ok(st),
            None => self.error(c, "<>|-+()[].,*&|/="),
        }
    }

    /// Take one character at a token boundary: start a word, number or
    /// literal, open lookahead, or emit a one-character token. Position and
    /// state bookkeeping stay with the caller.
    fn step_idle(&mut self, c: char) -> (r: LexerResult<State>)
        ensures
            match spec_idle_step(old(self)@, c) {
                Ok(ls2) => (r matches Ok(st) && st == ls2.state) && final(self)@ == LexState {
                    state: old(self)@.state,
                    ..ls2
                },
                Err(e) => (r matches Err(le) && le@ == e) && final(self)@ == old(self)@,
            },
    {
        match Lexer::classify_idle(c) {
            Some(State::Idle) => {
                if let Some(t) = Token::from_char(c) {
                    self.tokens.push(t);
                    proof {
                        assert(self.tokens.deep_view() =~= old(self).tokens.deep_view().push(
                            char_token(c).unwrap(),
                        ));
                    }
                }
                Ok(State::Idle)
            },
            Some(State::Text) => {
                self.buffer.push(c);
                Ok(State::Text)
            },
            Some(State::Number) => {
                self.buffer.push(c);
                Ok(State::Number)
            },
            Some(st) => Ok(st),
            None => self.error(c, "<>|-+()[].,*&|/="),
        }
    }

    /// Feed one character into the finite state machine; on success return
    /// the state it moved to. On an error the character still counts for
    /// position tracking, but nothing else changes.
    pub fn feed(&mut self, c: char) -> (r: LexerResult<State>)
        requires
            wf(old(self)@),
        ensures
            match spec_feed(old(self)@, c) {
                Ok(ls2) => (r matches Ok(st) && st == ls2.state) && final(self)@ == ls2 && wf(
                    ls2,
                ),
                Err(e) => (r matches Err(le) && le@ == e) && final(self)@ == advance_pos(
                    old(self)@,
                    c,
                ),
            },
    {
        if c == '\n' {
            if self.line < usize::MAX {
                self.line = self.line + 1;
            }
            self.column = 0;
        } else {
            if self.column < usize::MAX {
                self.column = self.column + 1;
            }
        }
        proof {
            assert(self@ =~= advance_pos(old(self)@, c));
        }
        let state = match self.state {
            // In a comment: discard until and including the newline
            State::Comment => if c == '\n' {
                State::Idle
            } else {
                State::Comment
            },
            // At a token boundary
            State::Idle => match self.step_idle(c) {
                Ok(st) => st,
                Err(e) => {
                    return Err(e);
                },
            },
            State::Operator => State::Idle,
            // Reading a word: buffer it until a boundary character flushes it
            State::Text => {
                if is_word_char_exec(c) {
                    self.buffer.push(c);
                    State::Text
                } else {
                    match Lexer::classify_idle(c) {
                        Some(State::Idle) => {
                            let word = Token::from_str(self.buffer.as_str());
                            let ghost toks0 = self.tokens.deep_view();
                            let ghost buf0 = self.buffer@;
                            self.tokens.push(word);
                            proof {
                                assert(self.tokens.deep_view() =~= toks0.push(
                                    classify_word(buf0),
                                ));
                            }
                            self.buffer = String::new();
                            if let Some(t) = Token::from_char(c) {
                                let ghost toks1 = self.tokens.deep_view();
                                self.tokens.push(t);
                                proof {
                                    assert(self.tokens.deep_view() =~= toks1.push(
                                        char_token(c).unwrap(),
                                    ));
                                }
                            }
                            State::Idle
                        },
                        _ => {
                            return self.error(c, "valid identifier [a-Z|0-9|_]");
                        },
                    }
                }
            },
            // Reading a number: digits, and at most one decimal point
            State::Number => {
                if is_digit_exec(c) {
                    self.buffer.push(c);
                    State::Number
                } else if c == '.' && !str_contains_char(self.buffer.as_str(), '.') {
                    self.buffer.push(c);
                    State::Number
                } else {
                    match Lexer::classify_idle(c) {
                        Some(State::Idle) => {
                            let w = self.buffer.clone();
                            let ghost toks0 = self.tokens.deep_view();
                            let ghost buf0 = self.buffer@;
                            self.tokens.push(Token::NumberLiteral(w));
                            proof {
                                assert(self.tokens.deep_view() =~= toks0.push(
                                    TokenView::NumberLiteral(buf0),
                                ));
                            }
                            self.buffer = String::new();
                            if let Some(t) = Token::from_char(c) {
                                let ghost toks1 = self.tokens.deep_view();
                                self.tokens.push(t);
                                proof {
                                    assert(self.tokens.deep_view() =~= toks1.push(
                                        char_token(c).unwrap(),
                                    ));
                                }
                            }
                            State::Idle
                        },
                        _ => {
                            return self.error(c, "valid number [0-9|.]");
                        },
                    }
                }
            },
            // Inside a backtick literal
            State::Escape(escaped) => {
                if c == '`' {
                    if !escaped {
                        State::Escape(false)
                    } else if self.last_char == '\\' {
                        // An escaped backtick stays literal content
                        self.buffer.push('`');
                        State::Escape(true)
                    } else {
                        let w = self.buffer.clone();
                        let ghost toks0 = self.tokens.deep_view();
                        let ghost buf0 = self.buffer@;
                        self.buffer = String::new();
                        self.tokens.push(Token::StringLiteral(w));
                        proof {
                            assert(self.tokens.deep_view() =~= toks0.push(
                                TokenView::StringLiteral(buf0),
                            ));
                        }
                        State::Idle
                    }
                } else {
                    self.buffer.push(c);
                    State::Escape(true)
                }
            },
            // One character of lookahead pending
            State::Disambiguate => {
                let p = self.last_char;
                if p == '-' && c == '-' {
                    State::Comment
                } else if p == '<' && c == '>' {
                    self.push_token(Token::NOTEQUAL);
                    State::Idle
                } else if p == '<' && c == '=' {
                    self.push_token(Token::LESSTHANOREQUAL);
                    State::Idle
                } else if p == '>' && c == '=' {
                    self.push_token(Token::GREATERTHANOREQUAL);
                    State::Idle
                } else if p == '|' && c == '|' {
                    self.push_token(Token::DOUBLEPIPE);
                    State::Idle
                } else {
                    // No two-character operator matches: the pending
                    // character resolves alone, and this one is taken as if
                    // freshly fed at a token boundary.
                    match Lexer::classify_idle(c) {
                        Some(_) => {
                            if let Some(t) = Token::from_char(p) {
                                let ghost toks0 = self.tokens.deep_view();
                                self.tokens.push(t);
                                proof {
                                    assert(self.tokens.deep_view() =~= toks0.push(
                                        char_token(p).unwrap(),
                                    ));
                                }
                            }
                            match self.step_idle(c) {
                                Ok(st) => st,
                                Err(e) => {
                                    return Err(e);
                                },
                            }
                        },
                        None => {
                            return self.error(c, "<>|-+()[].,*&|/=");
                        },
                    }
                }
            },
        };
        self.state = state;
        self.last_char = c;
        proof {
            if let Ok(ls2) = spec_feed(old(self)@, c) {
                assert(self@ =~= ls2);
            }
        }
        Ok(state)
    }

    /// Append one token to the output sequence.
    fn push_token(&mut self, t: Token)
        ensures
            final(self)@ == (LexState { tokens: old(self)@.tokens.push(t@), ..old(self)@ }),
    {
        let ghost toks0 = self.tokens.deep_view();
        self.tokens.push(t);
        proof {
            assert(self.tokens.deep_view() =~= toks0.push(t@));
            assert(self@ =~= LexState { tokens: old(self)@.tokens.push(t@), ..old(self)@ });
        }
    }

    /// Initialize a fresh machine, feed it the whole text, and on success
    /// hand the accumulated token sequence to a new parser cursor. The first
    /// lexical error aborts the whole operation.
    pub fn lex(s: &str) -> (r: LexerResult<Parser>)
        ensures
            match spec_lex(s@) {
                Ok(ts) => r matches Ok(p) && p@ == ts,
                Err(e) => r matches Err(le) && le@ == e,
            },
    {
        let mut lex = Lexer::new();
        let n = s.unicode_len();
        for i in 0..n
            invariant
                n == s@.len(),
                wf(lex@),
                spec_run(init_state(), s@.subrange(0, i as int)) == Ok::<
                    LexState,
                    LexErrorView,
                >(lex@),
        {
            let c = s.get_char(i);
            let ghost pre = lex@;
            let ghost fed = s@.subrange(0, i as int);
            match lex.feed(c) {
                Ok(_) => {
                    proof {
                        lemma_run_snoc(init_state(), fed, c);
                        assert(s@.subrange(0, i + 1) =~= fed.push(c));
                    }
                },
                Err(e) => {
                    proof {
                        lemma_run_snoc(init_state(), fed, c);
                        assert(s@.subrange(0, i + 1) =~= fed.push(c));
                        assert(spec_run(init_state(), s@.subrange(0, i + 1)) == Err::<
                            LexState,
                            LexErrorView,
                        >(e@));
                        assert(s@ =~= s@.subrange(0, i + 1) + s@.subrange(i + 1, n as int));
                        lemma_run_append(
                            init_state(),
                            s@.subrange(0, i + 1),
                            s@.subrange(i + 1, n as int),
                        );
                    }
                    return Err(e);
                },
            }
        }
        proof {
            assert(s@.subrange(0, n as int) =~= s@);
        }
        let ghost runls = lex@;
        // End of input: flush what is still buffered or pending
        match lex.state {
            State::Text => {
                let word = Token::from_str(lex.buffer.as_str());
                let ghost toks0 = lex.tokens.deep_view();
                lex.tokens.push(word);
                proof {
                    assert(lex.tokens.deep_view() =~= toks0.push(classify_word(runls.buffer)));
                }
            },
            State::Number => {
                let w = lex.buffer.clone();
                let ghost toks0 = lex.tokens.deep_view();
                lex.tokens.push(Token::NumberLiteral(w));
                proof {
                    assert(lex.tokens.deep_view() =~= toks0.push(
                        TokenView::NumberLiteral(runls.buffer),
                    ));
                }
            },
            State::Disambiguate => {
                if let Some(t) = Token::from_char(lex.last_char) {
                    let ghost toks0 = lex.tokens.deep_view();
                    lex.tokens.push(t);
                    proof {
                        assert(lex.tokens.deep_view() =~= toks0.push(
                            char_token(runls.last_char).unwrap(),
                        ));
                    }
                }
            },
            State::Escape(_) => {
                return Err(
                    LexError {
                        character: '`',
                        line: lex.line,
                        column: lex.column,
                        expected: "closing ` before end of input".to_owned(),
                    },
                );
            },
            _ => {},
        }
        let p = Parser::from_tokens(lex.tokens);
        proof {
            assert(match spec_lex(s@) {
                Ok(ts) => p@ =~= ts,
                Err(_) => false,
            });
        }
        Ok(p)
    }
}

/// A character that may continue a word, executably.
fn is_word_char_exec(c: char) -> (r: bool)
    ensures
        r == is_word_char(c),
{
    ('a' <= c && c <= 'z') || ('A' <= c && c <= 'Z') || ('0' <= c && c <= '9') || c == '_'
}

/// An ASCII digit, executably.
fn is_digit_exec(c: char) -> (r: bool)
    ensures
        r == is_digit(c),
{
    '0' <= c && c <= '9'
}

} // verus!
