//! The parser cursor: a forward-only, peekable queue over the token
//! sequence that the lexer produced.
use crate::token::{token_desc, Token, TokenView};
use vstd::prelude::*;

verus! {

/// The outcome of a cursor operation or of a grammar rule.
pub type ParserResult<T> = Result<T, ParserError>;

/// A failure while consuming tokens: either the next token was not the
/// expected one, or the cursor was already exhausted.
#[derive(Debug, PartialEq)]
pub enum ParserError {
    /// The next token did not match; the payload describes what was
    /// expected.
    Expecting(String),
    /// The cursor held no more tokens.
    OutOfTokens,
}

/// The mathematical model of a [`ParserError`].
pub enum ParserErrorView {
    Expecting(Seq<char>),
    OutOfTokens,
}

impl View for ParserError {
    type V = ParserErrorView;

    open spec fn view(&self) -> ParserErrorView {
        match self {
            ParserError::Expecting(s) => ParserErrorView::Expecting(s@),
            ParserError::OutOfTokens => ParserErrorView::OutOfTokens,
        }
    }
}

/// The forward-only cursor. Its view is the sequence of tokens not yet
/// consumed, in source order; popped tokens are never revisited.
#[derive(Debug)]
pub struct Parser {
    /// The remaining tokens, stored in reverse so that the front of the
    /// queue is the last element and popping is O(1).
    stack: Vec<Token>,
}

impl View for Parser {
    type V = Seq<TokenView>;

    closed spec fn view(&self) -> Seq<TokenView> {
        self.stack.deep_view().reverse()
    }
}

/// Dropping the last element of a sequence drops the first element of its
/// reverse.
proof fn lemma_reverse_drop_last<T>(s: Seq<T>)
    requires
        s.len() > 0,
    ensures
        s.reverse()[0] == s.last(),
        s.drop_last().reverse() =~= s.reverse().drop_first(),
{
}

/// Pushing an element onto a sequence prepends it to its reverse.
proof fn lemma_reverse_push<T>(s: Seq<T>, x: T)
    ensures
        s.push(x).reverse() =~= seq![x] + s.reverse(),
{
}

impl Parser {
    /// Wrap a complete token sequence in a fresh cursor.
    pub fn from_tokens(v: Vec<Token>) -> (p: Parser)
        ensures
            p@ == v.deep_view(),
    {
        let ghost all = v.deep_view();
        let mut rest = v;
        let mut stack: Vec<Token> = Vec::new();
        loop
            invariant
                rest.deep_view() + stack.deep_view().reverse() =~= all,
            ensures
                stack.deep_view().reverse() =~= all,
            decreases rest.len(),
        {
            let ghost rest_pre = rest.deep_view();
            match rest.pop() {
                Some(t) => {
                    let ghost stack_pre = stack.deep_view();
                    stack.push(t);
                    proof {
                        assert(stack.deep_view() =~= stack_pre.push(t.deep_view()));
                        lemma_reverse_push(stack_pre, t.deep_view());
                        assert(rest.deep_view() =~= rest_pre.drop_last());
                        assert(rest.deep_view() + stack.deep_view().reverse() =~= all);
                    }
                },
                None => {
                    proof {
                        assert(rest.deep_view() + stack.deep_view().reverse() =~= stack
                            .deep_view()
                            .reverse());
                    }
                    break ;
                },
            }
        }
        let p = Parser { stack };
        proof {
            assert(p@ =~= all);
        }
        p
    }

    /// Return a reference to the next token in the queue, or `None` if the
    /// cursor is exhausted.
    pub fn peek(&self) -> (r: Option<&Token>)
        ensures
            match r {
                Some(t) => self@.len() > 0 && t@ == self@[0],
                None => self@.len() == 0,
            },
    {
        if self.stack.len() > 0 {
            let t = &self.stack[self.stack.len() - 1];
            proof {
                lemma_reverse_drop_last(self.stack.deep_view());
            }
            Some(t)
        } else {
            None
        }
    }

    /// Is the next token structurally equal to `expecting`?
    pub fn peek_is(&self, expecting: &Token) -> (r: bool)
        ensures
            r == (self@.len() > 0 && self@[0] == expecting@),
    {
        match self.peek() {
            Some(token) => token.equals(expecting),
            None => false,
        }
    }

    /// Mandatory pop: consume and return the front token, or report
    /// `OutOfTokens` on an exhausted cursor.
    pub fn pop(&mut self) -> (r: ParserResult<Token>)
        ensures
            old(self)@.len() == 0 ==> (r matches Err(e) && e@ == ParserErrorView::OutOfTokens)
                && final(self)@ == old(self)@,
            old(self)@.len() > 0 ==> (r matches Ok(t) && t@ == old(self)@[0]) && final(self)@
                == old(self)@.drop_first(),
    {
        proof {
            if self.stack.deep_view().len() > 0 {
                lemma_reverse_drop_last(self.stack.deep_view());
            }
        }
        let ghost stack_pre = self.stack.deep_view();
        match self.stack.pop() {
            Some(t) => {
                proof {
                    assert(self.stack.deep_view() =~= stack_pre.drop_last());
                }
                Ok(t)
            },
            None => Err(ParserError::OutOfTokens),
        }
    }

    /// Optional pop: if the front token structurally equals `expecting`,
    /// consume it and return true; otherwise leave the cursor untouched.
    pub fn pop_if(&mut self, expecting: &Token) -> (r: bool)
        ensures
            r == (old(self)@.len() > 0 && old(self)@[0] == expecting@),
            r ==> final(self)@ == old(self)@.drop_first(),
            !r ==> final(self)@ == old(self)@,
    {
        let eq = self.peek_is(expecting);
        if eq {
            let _popped = self.pop();
            true
        } else {
            false
        }
    }

    /// Pop the front token and require it to equal `expecting`; a mismatch
    /// consumes the token and reports what was expected.
    pub fn expect(&mut self, expecting: &Token) -> (r: ParserResult<Token>)
        ensures
            old(self)@.len() == 0 ==> (r matches Err(e) && e@ == ParserErrorView::OutOfTokens)
                && final(self)@ == old(self)@,
            old(self)@.len() > 0 ==> final(self)@ == old(self)@.drop_first(),
            old(self)@.len() > 0 && old(self)@[0] == expecting@ ==> (r matches Ok(t) && t@
                == old(self)@[0]),
            old(self)@.len() > 0 && old(self)@[0] != expecting@ ==> (r matches Err(e) && e@
                == ParserErrorView::Expecting(token_desc(expecting@))),
    {
        let tok = match self.pop() {
            Ok(t) => t,
            Err(e) => {
                return Err(e);
            },
        };
        if tok.equals(expecting) {
            Ok(tok)
        } else {
            Err(ParserError::Expecting(expecting.describe()))
        }
    }

    /// Pop the front token and require it to be a string literal.
    pub fn expect_string(&mut self) -> (r: ParserResult<Token>)
        ensures
            old(self)@.len() == 0 ==> (r matches Err(e) && e@ == ParserErrorView::OutOfTokens)
                && final(self)@ == old(self)@,
            old(self)@.len() > 0 ==> final(self)@ == old(self)@.drop_first(),
            old(self)@.len() > 0 && (old(self)@[0] matches TokenView::StringLiteral(_)) ==> (
            r matches Ok(t) && t@ == old(self)@[0]),
            old(self)@.len() > 0 && !(old(self)@[0] matches TokenView::StringLiteral(_)) ==> (
            r matches Err(e) && e@ == ParserErrorView::Expecting("string literal"@)),
    {
        let tok = match self.pop() {
            Ok(t) => t,
            Err(e) => {
                return Err(e);
            },
        };
        match tok {
            Token::StringLiteral(_) => Ok(tok),
            _ => Err(ParserError::Expecting("string literal".to_owned())),
        }
    }

    /// Pop the front token and require it to be a number literal.
    pub fn expect_number(&mut self) -> (r: ParserResult<Token>)
        ensures
            old(self)@.len() == 0 ==> (r matches Err(e) && e@ == ParserErrorView::OutOfTokens)
                && final(self)@ == old(self)@,
            old(self)@.len() > 0 ==> final(self)@ == old(self)@.drop_first(),
            old(self)@.len() > 0 && (old(self)@[0] matches TokenView::NumberLiteral(_)) ==> (
            r matches Ok(t) && t@ == old(self)@[0]),
            old(self)@.len() > 0 && !(old(self)@[0] matches TokenView::NumberLiteral(_)) ==> (
            r matches Err(e) && e@ == ParserErrorView::Expecting("number literal"@)),
    {
        let tok = match self.pop() {
            Ok(t) => t,
            Err(e) => {
                return Err(e);
            },
        };
        match tok {
            Token::NumberLiteral(_) => Ok(tok),
            _ => Err(ParserError::Expecting("number literal".to_owned())),
        }
    }

    /// Pop the front token and require it to be an identifier.
    pub fn expect_identifier(&mut self) -> (r: ParserResult<Token>)
        ensures
            old(self)@.len() == 0 ==> (r matches Err(e) && e@ == ParserErrorView::OutOfTokens)
                && final(self)@ == old(self)@,
            old(self)@.len() > 0 ==> final(self)@ == old(self)@.drop_first(),
            old(self)@.len() > 0 && (old(self)@[0] matches TokenView::Identifier(_)) ==> (
            r matches Ok(t) && t@ == old(self)@[0]),
            old(self)@.len() > 0 && !(old(self)@[0] matches TokenView::Identifier(_)) ==> (
            r matches Err(e) && e@ == ParserErrorView::Expecting("identifier"@)),
    {
        let tok = match self.pop() {
            Ok(t) => t,
            Err(e) => {
                return Err(e);
            },
        };
        match tok {
            Token::Identifier(_) => Ok(tok),
            _ => Err(ParserError::Expecting("identifier".to_owned())),
        }
    }
}

} // verus!
