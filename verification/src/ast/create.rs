//! The `CREATE` statement grammar rule: a second statement kind on the same
//! contract, showing that dispatch by leading keyword needs no change to the
//! cursor or the lexer.
use crate::ast::{is_suffix_of, lemma_suffix_drop_first, lemma_suffix_refl, Syntax};
use crate::parser::{Parser, ParserError, ParserErrorView, ParserResult};
use crate::token::{token_desc, Token, TokenView};
use vstd::prelude::*;

verus! {

/// Marker for a successfully parsed `CREATE` statement head.
#[derive(Debug)]
pub struct Create;

impl Syntax for Create {
    type Output = Create;

    /// The rule consumes exactly one token and requires it to be `CREATE`.
    open spec fn parses(
        pre: Seq<TokenView>,
        r: Result<Create, ParserError>,
        post: Seq<TokenView>,
    ) -> bool {
        if pre.len() == 0 {
            (r matches Err(e) && e@ == ParserErrorView::OutOfTokens) && post == pre
        } else if pre[0] == TokenView::CREATE {
            (r matches Ok(_)) && post == pre.drop_first()
        } else {
            (r matches Err(e) && e@ == ParserErrorView::Expecting(token_desc(TokenView::CREATE)))
                && post == pre.drop_first()
        }
    }

    fn parse(parser: &mut Parser) -> (r: ParserResult<Create>) {
        let ghost pre = parser@;
        match parser.expect(&Token::CREATE) {
            Ok(_) => {
                proof {
                    lemma_suffix_drop_first(pre);
                }
                Ok(Create)
            },
            Err(e) => {
                proof {
                    if pre.len() == 0 {
                        lemma_suffix_refl(pre);
                    } else {
                        lemma_suffix_drop_first(pre);
                    }
                }
                Err(e)
            },
        }
    }
}

} // verus!
