use vstd::prelude::*;

use crate::syntax_tree::grammar::expression::{self, lemma_views_subrange};
use crate::syntax_tree::syntax::{Block, If, ParsingError, While, outcome_view, result_view};
use crate::tokenize::{Token, TokenKey, token_views};
use super::{find_closing, find_key, lemma_closing_brace, lemma_first_key, spec_guarded};

verus! {

/// A guarded body `keyword condition { blocks }`: an `if` block, or a
/// `while` block where `is_while` holds.
pub(crate) fn eval_guarded(tokens: &[Token], is_while: bool) -> (r: Option<
    Result<Block, ParsingError>,
>)
    ensures
        outcome_view(r) == spec_guarded(token_views(tokens@), is_while),
    decreases tokens@.len(), 2nat,
{
    let ghost t = token_views(tokens@);
    let n = tokens.len();
    if n == 0 {
        return None;
    }
    proof {
        lemma_first_key(t, TokenKey::CurlyBraceLeft, 0);
    }
    let j = match find_key(tokens, TokenKey::CurlyBraceLeft, 0) {
        Some(j) => j,
        None => {
            return Some(Err(
                ParsingError {
                    col: tokens[0].col,
                    ln: tokens[0].ln,
                    reason: if is_while {
                        "Couldn't find start '{' for while"
                    } else {
                        "Couldn't find start '{' for if"
                    },
                },
            ));
        },
    };
    if j < 1 {
        return None;
    }
    proof {
        lemma_views_subrange(tokens@, 1, j as int);
    }
    let cond = match expression::try_eval(&tokens[1..j]) {
        Some(Ok(x)) => x,
        Some(Err(e)) => {
            return Some(Err(e));
        },
        None => {
            return None;
        },
    };
    proof {
        lemma_closing_brace(t, j + 1, 1);
    }
    match find_closing(tokens, j + 1) {
        None => Some(Err(
            ParsingError {
                col: tokens[0].col,
                ln: tokens[0].ln,
                reason: if is_while {
                    "Couldn't find ending '}' for while"
                } else {
                    "Couldn't find ending '}' for if"
                },
            },
        )),
        Some(curly_end) => {
            proof {
                lemma_views_subrange(tokens@, j + 1, curly_end as int);
            }
            let blocks = match super::try_eval(&tokens[j + 1..curly_end]) {
                Some(Ok(bs)) => bs,
                Some(Err(e)) => {
                    return Some(Err(e));
                },
                None => {
                    return None;
                },
            };
            Some(
                Ok(
                    if is_while {
                        Block::While(While { col: tokens[0].col, ln: tokens[0].ln, eval: cond, blocks })
                    } else {
                        Block::If(If { col: tokens[0].col, ln: tokens[0].ln, eval: cond, blocks })
                    },
                ),
            )
        },
    }
}

/// An `if` block: `if condition { blocks }`.
pub fn try_eval(tokens: &[Token]) -> (r: Option<Result<Block, ParsingError>>)
    ensures
        outcome_view(r) == spec_guarded(token_views(tokens@), false),
{
    eval_guarded(tokens, false)
}

/// An `if` block (see `try_eval`), on tokens that the parser can judge.
pub fn eval(tokens: &[Token]) -> (r: Result<Block, ParsingError>)
    requires
        spec_guarded(token_views(tokens@), false) is Some,
    ensures
        Some(result_view(r)) == spec_guarded(token_views(tokens@), false),
{
    eval_guarded(tokens, false).unwrap()
}

} // verus!
