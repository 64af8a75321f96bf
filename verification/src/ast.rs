//! The grammar-rule abstraction: a rule consumes the cursor and produces a
//! typed output or a parse error, and a generic combinator composes any rule
//! into "one or more, comma separated".
use crate::parser::{Parser, ParserError, ParserResult};
use crate::token::{Token, TokenView};
use vstd::prelude::*;

pub mod columns;
pub mod create;
pub mod select;

verus! {

/// The remaining tokens after a parse are a suffix of those before it: a
/// grammar rule only ever consumes from the front of the cursor.
pub open spec fn is_suffix_of(post: Seq<TokenView>, pre: Seq<TokenView>) -> bool {
    post.len() <= pre.len() && post == pre.skip(pre.len() - post.len())
}

/// Every sequence is a suffix of itself.
pub proof fn lemma_suffix_refl(s: Seq<TokenView>)
    ensures
        is_suffix_of(s, s),
{
    assert(s.skip(0) =~= s);
}

/// Dropping the front element leaves a suffix.
pub proof fn lemma_suffix_drop_first(s: Seq<TokenView>)
    requires
        s.len() > 0,
    ensures
        is_suffix_of(s.drop_first(), s),
{
    assert(s.drop_first() =~= s.skip(1));
}

/// Suffixes compose.
pub proof fn lemma_suffix_trans(a: Seq<TokenView>, b: Seq<TokenView>, c: Seq<TokenView>)
    requires
        is_suffix_of(b, a),
        is_suffix_of(c, b),
    ensures
        is_suffix_of(c, a),
{
    assert(c =~= a.skip(a.len() - c.len()));
}

/// A grammar rule: one unit of parsing logic that consumes tokens from the
/// cursor and yields a typed output or fails.
pub trait Syntax: Sized {
    /// The typed value a successful parse produces.
    type Output;

    /// The exact parsing relation of this rule: which outcome and remaining
    /// token sequence each starting token sequence leads to.
    spec fn parses(
        pre: Seq<TokenView>,
        r: Result<Self::Output, ParserError>,
        post: Seq<TokenView>,
    ) -> bool;

    /// Consume tokens from the front of the cursor and produce this rule's
    /// output, or fail fast on the first mismatch.
    fn parse(parser: &mut Parser) -> (r: ParserResult<Self::Output>)
        ensures
            is_suffix_of(final(parser)@, old(parser)@),
            Self::parses(old(parser)@, r, final(parser)@),
    ;
}

/// One or more outputs of rule `R` parsed from `pre`, consecutive items
/// separated by single commas, leaving `post`.
pub open spec fn comma_chain<R: Syntax>(
    pre: Seq<TokenView>,
    items: Seq<R::Output>,
    post: Seq<TokenView>,
) -> bool
    decreases items.len(),
{
    if items.len() == 0 {
        false
    } else if items.len() == 1 {
        R::parses(pre, Ok(items[0]), post)
    } else {
        exists|mid: Seq<TokenView>|
            {
                &&& #[trigger] R::parses(pre, Ok(items[0]), mid)
                &&& mid.len() > 0
                &&& mid[0] == TokenView::COMMA
                &&& comma_chain::<R>(mid.drop_first(), items.drop_first(), post)
            }
    }
}

/// What the comma-delimited combinator produces: on success, a comma chain
/// of at least one item that stops as soon as no comma follows; on failure,
/// exactly the error the wrapped rule produced, either on the first item or
/// on the item owed after a comma at the end of a parsed chain.
pub open spec fn comma_delimited_parses<R: Syntax>(
    pre: Seq<TokenView>,
    r: Result<Vec<R::Output>, ParserError>,
    post: Seq<TokenView>,
) -> bool {
    match r {
        Ok(items) => comma_chain::<R>(pre, items@, post) && (post.len() == 0 || post[0]
            != TokenView::COMMA),
        Err(e) => R::parses(pre, Err(e), post) || exists|
            items: Seq<R::Output>,
            mid: Seq<TokenView>,
        |
            {
                &&& #[trigger] comma_chain::<R>(pre, items, mid)
                &&& mid.len() > 0
                &&& mid[0] == TokenView::COMMA
                &&& R::parses(mid.drop_first(), Err(e), post)
            },
    }
}

/// Appending one more comma-separated item extends a comma chain.
proof fn lemma_chain_snoc<R: Syntax>(
    pre: Seq<TokenView>,
    items: Seq<R::Output>,
    mid: Seq<TokenView>,
    x: R::Output,
    post: Seq<TokenView>,
)
    requires
        comma_chain::<R>(pre, items, mid),
        mid.len() > 0,
        mid[0] == TokenView::COMMA,
        R::parses(mid.drop_first(), Ok(x), post),
    ensures
        comma_chain::<R>(pre, items.push(x), post),
    decreases items.len(),
{
    if items.len() == 1 {
        assert(items.push(x)[0] == items[0]);
        assert(items.push(x).drop_first() =~= seq![x]);
        assert(comma_chain::<R>(mid.drop_first(), seq![x], post));
        assert(R::parses(pre, Ok(items.push(x)[0]), mid));
    } else {
        let mid0 = choose|m: Seq<TokenView>|
            {
                &&& #[trigger] R::parses(pre, Ok(items[0]), m)
                &&& m.len() > 0
                &&& m[0] == TokenView::COMMA
                &&& comma_chain::<R>(m.drop_first(), items.drop_first(), mid)
            };
        lemma_chain_snoc::<R>(mid0.drop_first(), items.drop_first(), mid, x, post);
        assert(items.push(x).drop_first() =~= items.drop_first().push(x));
        assert(items.push(x)[0] == items[0]);
        assert(R::parses(pre, Ok(items.push(x)[0]), mid0));
    }
}

/// Wraps a rule `R` into "one `R`, then zero or more `(COMMA, R)` pairs".
#[allow(dead_code)]
struct CommaDelimited<R: Syntax>(R);

impl<R: Syntax> Syntax for CommaDelimited<R> {
    type Output = Vec<R::Output>;

    open spec fn parses(
        pre: Seq<TokenView>,
        r: Result<Vec<R::Output>, ParserError>,
        post: Seq<TokenView>,
    ) -> bool {
        comma_delimited_parses::<R>(pre, r, post)
    }

    #[verifier::spinoff_prover]
    #[verifier::rlimit(100)]
    fn parse(parser: &mut Parser) -> (r: ParserResult<Vec<R::Output>>) {
        let ghost pre = parser@;
        let mut v: Vec<R::Output> = Vec::new();
        let first = match R::parse(parser) {
            Ok(x) => x,
            Err(e) => {
                proof {
                    assert(R::parses(pre, Err(e), parser@));
                }
                return Err(e);
            },
        };
        proof {
            assert(comma_chain::<R>(pre, seq![first], parser@));
        }
        v.push(first);
        proof {
            assert(v@ =~= seq![v@[0]]);
        }
        loop
            invariant
                pre == old(parser)@,
                comma_chain::<R>(pre, v@, parser@),
                is_suffix_of(parser@, pre),
            ensures
                comma_chain::<R>(pre, v@, parser@),
                parser@.len() == 0 || parser@[0] != TokenView::COMMA,
                is_suffix_of(parser@, pre),
            decreases parser@.len(),
        {
            let ghost mid = parser@;
            if !parser.pop_if(&Token::COMMA) {
                break ;
            }
            proof {
                lemma_suffix_drop_first(mid);
                lemma_suffix_trans(pre, mid, parser@);
            }
            let ghost after_comma = parser@;
            proof {
                assert(is_suffix_of(after_comma, pre));
            }
            let x = match R::parse(parser) {
                Ok(x) => x,
                Err(e) => {
                    proof {
                        assert(comma_chain::<R>(pre, v@, mid));
                        assert(R::parses(after_comma, Err(e), parser@));
                        assert(is_suffix_of(parser@, after_comma));
                        lemma_suffix_trans(pre, after_comma, parser@);
                        assert(is_suffix_of(parser@, pre));
                    }
                    return Err(e);
                },
            };
            proof {
                lemma_chain_snoc::<R>(pre, v@, mid, x, parser@);
                lemma_suffix_trans(pre, after_comma, parser@);
            }
            let ghost v0 = v@;
            v.push(x);
            proof {
                assert(v@ =~= v0.push(x));
            }
        }
        proof {
            assert(comma_delimited_parses::<R>(pre, Ok(v), parser@));
            assert(Self::parses(pre, Ok(v), parser@));
        }
        Ok(v)
    }
}

/// Every grammar rule can be composed into a comma-delimited list.
pub trait SyntaxExt: Syntax {
    /// Parse "one `Self`, then zero or more comma-separated `Self`s",
    /// returning the outputs in source order; the first failure of the
    /// wrapped rule surfaces unchanged.
    fn parse_comma_delimited(parser: &mut Parser) -> (r: ParserResult<Vec<Self::Output>>)
        ensures
            is_suffix_of(final(parser)@, old(parser)@),
            comma_delimited_parses::<Self>(old(parser)@, r, final(parser)@),
    {
        CommaDelimited::<Self>::parse(parser)
    }
}

impl<R: Syntax> SyntaxExt for R {

}

} // verus!
