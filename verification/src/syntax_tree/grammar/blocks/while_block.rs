use vstd::prelude::*;

use crate::syntax_tree::syntax::{Block, ParsingError, outcome_view, result_view};
use crate::tokenize::{Token, token_views};
use super::if_block::eval_guarded;
use super::spec_guarded;

verus! {

/// A `while` block: `while condition { blocks }`.
pub fn try_eval(tokens: &[Token]) -> (r: Option<Result<Block, ParsingError>>)
    ensures
        outcome_view(r) == spec_guarded(token_views(tokens@), true),
{
    eval_guarded(tokens, true)
}

/// A `while` block (see `try_eval`), on tokens that the parser can judge.
pub fn eval(tokens: &[Token]) -> (r: Result<Block, ParsingError>)
    requires
        spec_guarded(token_views(tokens@), true) is Some,
    ensures
        Some(result_view(r)) == spec_guarded(token_views(tokens@), true),
{
    eval_guarded(tokens, true).unwrap()
}

} // verus!
