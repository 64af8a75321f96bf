//! The column-projection grammar rule.
use crate::ast::{is_suffix_of, lemma_suffix_drop_first, lemma_suffix_refl, Syntax};
use crate::parser::{Parser, ParserError, ParserErrorView, ParserResult};
use crate::token::{Token, TokenView};
use vstd::prelude::*;

verus! {

/// A column projection: `*` selects everything, anything else is a
/// single-token expression.
#[derive(Debug)]
pub enum Column {
    All,
    Expr(Token),
}

impl Syntax for Column {
    type Output = Column;

    /// An asterisk parses to `All`; any other poppable token parses to
    /// `Expr` of that token; an exhausted cursor fails.
    open spec fn parses(
        pre: Seq<TokenView>,
        r: Result<Column, ParserError>,
        post: Seq<TokenView>,
    ) -> bool {
        if pre.len() == 0 {
            (r matches Err(e) && e@ == ParserErrorView::OutOfTokens) && post == pre
        } else if pre[0] == TokenView::ASTERISK {
            (r matches Ok(c) && c is All) && post == pre.drop_first()
        } else {
            (r matches Ok(c) && (c matches Column::Expr(t) && t@ == pre[0])) && post
                == pre.drop_first()
        }
    }

    fn parse(parser: &mut Parser) -> (r: ParserResult<Column>) {
        let ghost pre = parser@;
        if parser.pop_if(&Token::ASTERISK) {
            proof {
                lemma_suffix_drop_first(pre);
            }
            Ok(Column::All)
        } else {
            match parser.pop() {
                Ok(t) => {
                    proof {
                        lemma_suffix_drop_first(pre);
                    }
                    Ok(Column::Expr(t))
                },
                Err(e) => {
                    proof {
                        lemma_suffix_refl(pre);
                    }
                    Err(e)
                },
            }
        }
    }
}

} // verus!
