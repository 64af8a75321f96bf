//! The `SELECT` statement grammar rule (a minimal head marker; projection
//! and clause parsing are extension points on the same contract).
use crate::ast::{is_suffix_of, lemma_suffix_drop_first, lemma_suffix_refl, Syntax};
use crate::parser::{Parser, ParserError, ParserErrorView, ParserResult};
use crate::token::{token_desc, Token, TokenView};
use vstd::prelude::*;

verus! {

/// Marker for a successfully parsed `SELECT` statement head.
#[derive(Debug)]
pub struct Select;

impl Syntax for Select {
    type Output = Select;

    /// The rule consumes exactly one token and requires it to be `SELECT`.
    open spec fn parses(
        pre: Seq<TokenView>,
        r: Result<Select, ParserError>,
        post: Seq<TokenView>,
    ) -> bool {
        if pre.len() == 0 {
            (r matches Err(e) && e@ == ParserErrorView::OutOfTokens) && post == pre
        } else if pre[0] == TokenView::SELECT {
            (r matches Ok(_)) && post == pre.drop_first()
        } else {
            (r matches Err(e) && e@ == ParserErrorView::Expecting(token_desc(TokenView::SELECT)))
                && post == pre.drop_first()
        }
    }

    fn parse(parser: &mut Parser) -> (r: ParserResult<Select>) {
        let ghost pre = parser@;
        match parser.expect(&Token::SELECT) {
            Ok(_) => {
                proof {
                    lemma_suffix_drop_first(pre);
                }
                Ok(Select)
            },
            Err(e) => {
                proof {
                    if pre.len() == 0 {
                        lemma_suffix_refl(pre);
                    } else {
                        lemma_suffix_drop_first(pre);
                    }
                }
                Err(e)
            },
        }
    }
}

} // verus!
