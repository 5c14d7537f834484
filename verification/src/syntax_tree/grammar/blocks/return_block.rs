use vstd::prelude::*;

use crate::syntax_tree::grammar::expression::{self, lemma_views_subrange};
use crate::syntax_tree::syntax::{Block, ParsingError, Return, outcome_view, result_view};
use crate::tokenize::{Token, token_views};
use super::spec_return;

verus! {

/// A return statement: `ret ;` or `ret expression ;`.
pub fn try_eval(tokens: &[Token]) -> (r: Option<Result<Block, ParsingError>>)
    ensures
        outcome_view(r) == spec_return(token_views(tokens@)),
{
    let n = tokens.len();
    if n < 2 {
        return None;
    }
    if n == 2 {
        return Some(Ok(Block::Return(Return { col: tokens[0].col, ln: tokens[0].ln, eval: None })));
    }
    proof {
        lemma_views_subrange(tokens@, 1, n - 1);
    }
    match expression::try_eval(&tokens[1..n - 1]) {
        Some(Ok(x)) => Some(
            Ok(Block::Return(Return { col: tokens[0].col, ln: tokens[0].ln, eval: Some(x) })),
        ),
        Some(Err(e)) => Some(Err(e)),
        None => None,
    }
}

/// A return statement (see `try_eval`), on tokens that the parser can
/// judge.
pub fn eval(tokens: &[Token]) -> (r: Result<Block, ParsingError>)
    requires
        spec_return(token_views(tokens@)) is Some,
    ensures
        Some(result_view(r)) == spec_return(token_views(tokens@)),
{
    try_eval(tokens).unwrap()
}

} // verus!
