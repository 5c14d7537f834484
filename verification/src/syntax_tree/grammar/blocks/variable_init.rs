use vstd::prelude::*;

use crate::syntax_tree::grammar::expression::{
    self, bracket_split, lemma_bracket_split, lemma_views_subrange,
};
use crate::syntax_tree::grammar::get_type;
use crate::syntax_tree::syntax::{
    Block, ListInit, MatrixInit, ParsingError, Types, VariableInit, VariableInitValues,
    outcome_view, result_view,
};
use crate::tokenize::{Token, TokenKey, token_views};
use super::{first_misplaced, init_order, spec_list_init, spec_matrix_init, spec_variable_init};

verus! {

/// The kind wanted at position `i` of a declaration that starts with
/// `first`.
pub(crate) fn expected_kind(i: usize, first: TokenKey) -> (k: TokenKey)
    ensures
        k == init_order(i as int, first),
{
    if i == 0 {
        first
    } else if i == 1 {
        TokenKey::Keyword
    } else if i == 2 {
        TokenKey::Colon
    } else if i == 3 {
        TokenKey::Keyword
    } else {
        TokenKey::Assign
    }
}

/// The first of the five leading tokens that is not of the wanted kind.
pub(crate) fn find_misplaced(tokens: &[Token], first: TokenKey) -> (r: Option<usize>)
    requires
        tokens@.len() >= 5,
    ensures
        match r {
            Some(i) => first_misplaced(token_views(tokens@), first, 0) == Some(i as int) && i < 5,
            None => first_misplaced(token_views(tokens@), first, 0) is None,
        },
{
    let ghost t = token_views(tokens@);
    let mut i: usize = 0;
    while i < 5
        invariant
            i <= 5,
            tokens@.len() >= 5,
            t == token_views(tokens@),
            first_misplaced(t, first, 0) == first_misplaced(t, first, i as int),
        decreases 5 - i,
    {
        if tokens[i].key != expected_kind(i, first) {
            return Some(i);
        }
        i = i + 1;
    }
    None
}

/// A variable initialisation: `var name : type = value ;`. A matrix takes
/// `[ width , height ]`, a list `[ length ]`, any other type an expression.
pub fn try_eval(tokens: &[Token]) -> (r: Option<Result<Block, ParsingError>>)
    ensures
        outcome_view(r) == spec_variable_init(token_views(tokens@)),
{
    let ghost t = token_views(tokens@);
    let n = tokens.len();
    if n == 0 {
        return None;
    }
    if n < 6 {
        return Some(
            Err(
                ParsingError {
                    col: tokens[0].col,
                    ln: tokens[0].ln,
                    reason: "Invalid variable initalization",
                },
            ),
        );
    }
    if let Some(i) = find_misplaced(tokens, TokenKey::Variable) {
        return Some(
            Err(ParsingError { col: tokens[i].col, ln: tokens[i].ln, reason: "Invalid word" }),
        );
    }
    let tpe = match get_type::try_eval(&tokens[3]) {
        Some(Ok(tpe)) => tpe,
        Some(Err(e)) => {
            return Some(Err(e));
        },
        None => {
            return None;
        },
    };
    let name = match tokens[1].raw.as_ref() {
        Some(raw) => raw.clone(),
        None => {
            return None;
        },
    };
    let set_tokens = &tokens[5..n - 1];
    proof {
        lemma_views_subrange(tokens@, 5, n - 1);
    }
    let value = if tpe == Types::Matrix {
        matrix_init_eval(set_tokens)
    } else if tpe == Types::List {
        list_init_eval(set_tokens)
    } else {
        match expression::try_eval(set_tokens) {
            Some(Ok(x)) => Some(Ok(VariableInitValues::Expression(x))),
            Some(Err(e)) => Some(Err(e)),
            None => None,
        }
    };
    match value {
        Some(Ok(value)) => Some(
            Ok(
                Block::VariableInit(
                    VariableInit { col: tokens[0].col, ln: tokens[0].ln, tpe, name, value },
                ),
            ),
        ),
        Some(Err(e)) => Some(Err(e)),
        None => None,
    }
}

/// A variable initialisation (see `try_eval`), on tokens that the parser
/// can judge.
pub fn eval(tokens: &[Token]) -> (r: Result<Block, ParsingError>)
    requires
        spec_variable_init(token_views(tokens@)) is Some,
    ensures
        Some(result_view(r)) == spec_variable_init(token_views(tokens@)),
{
    try_eval(tokens).unwrap()
}

/// The length of a list: `[ expression ]`.
fn list_init_eval(tokens: &[Token]) -> (r: Option<Result<VariableInitValues, ParsingError>>)
    ensures
        outcome_view(r) == spec_list_init(token_views(tokens@)),
{
    let n = tokens.len();
    if n == 0 {
        return None;
    }
    if tokens[0].key != TokenKey::BracketLeft {
        return Some(
            Err(ParsingError { col: tokens[0].col, ln: tokens[0].ln, reason: "Invalid token" }),
        );
    }
    if tokens[n - 1].key != TokenKey::BracketRight {
        return Some(
            Err(
                ParsingError {
                    col: tokens[n - 1].col,
                    ln: tokens[n - 1].ln,
                    reason: "Invalid token",
                },
            ),
        );
    }
    if n < 2 {
        return None;
    }
    proof {
        lemma_views_subrange(tokens@, 1, n - 1);
    }
    match expression::try_eval(&tokens[1..n - 1]) {
        Some(Ok(length)) => Some(
            Ok(
                VariableInitValues::ListInit(
                    ListInit { col: tokens[0].col, ln: tokens[0].ln, length },
                ),
            ),
        ),
        Some(Err(e)) => Some(Err(e)),
        None => None,
    }
}

/// The size of a matrix: `[ width , height ]`, split at the first comma
/// outside any nested group.
fn matrix_init_eval(tokens: &[Token]) -> (r: Option<Result<VariableInitValues, ParsingError>>)
    ensures
        outcome_view(r) == spec_matrix_init(token_views(tokens@)),
{
    let ghost t = token_views(tokens@);
    let n = tokens.len();
    if n == 0 {
        return None;
    }
    if tokens[0].key != TokenKey::BracketLeft {
        return Some(
            Err(ParsingError { col: tokens[0].col, ln: tokens[0].ln, reason: "Invalid token" }),
        );
    }
    if tokens[n - 1].key != TokenKey::BracketRight {
        return Some(
            Err(
                ParsingError {
                    col: tokens[n - 1].col,
                    ln: tokens[n - 1].ln,
                    reason: "Invalid token",
                },
            ),
        );
    }
    let mut p_count: usize = 0;
    let mut b_count: usize = 0;
    let mut i: usize = 1;
    proof {
        lemma_bracket_split(t, 1, 0, 0);
    }
    while i < n
        invariant
            n == tokens@.len(),
            t == token_views(tokens@),
            1 <= i <= n,
            p_count <= i,
            b_count <= i,
            t.last().key == TokenKey::BracketRight,
            t[0].key == TokenKey::BracketLeft,
            bracket_split(t, 1, 0, 0) == bracket_split(t, i as int, p_count as nat, b_count as nat),
        decreases n - i,
    {
        let token = &tokens[i];
        if token.key == TokenKey::Comma && p_count == 0 && b_count == 0 {
            if i + 1 > n - 1 {
                return None;
            }
            proof {
                lemma_views_subrange(tokens@, 1, i as int);
                lemma_views_subrange(tokens@, i + 1, n - 1);
            }
            let width = match expression::try_eval(&tokens[1..i]) {
                Some(Ok(x)) => x,
                Some(Err(e)) => {
                    return Some(Err(e));
                },
                None => {
                    return None;
                },
            };
            let height = match expression::try_eval(&tokens[i + 1..n - 1]) {
                Some(Ok(x)) => x,
                Some(Err(e)) => {
                    return Some(Err(e));
                },
                None => {
                    return None;
                },
            };
            return Some(
                Ok(
                    VariableInitValues::MatrixInit(
                        MatrixInit { col: tokens[0].col, ln: tokens[0].ln, width, height },
                    ),
                ),
            );
        }
        if token.key == TokenKey::BracketLeft {
            b_count = b_count + 1;
        } else if token.key == TokenKey::BracketRight {
            if b_count == 0 {
                return Some(
                    Err(
                        ParsingError {
                            col: tokens[0].col,
                            ln: tokens[0].ln,
                            reason: "Unexpected token",
                        },
                    ),
                );
            }
            b_count = b_count - 1;
        } else if token.key == TokenKey::ParentheseLeft {
            p_count = p_count + 1;
        } else if token.key == TokenKey::ParentheseRight {
            if p_count == 0 {
                return Some(
                    Err(
                        ParsingError {
                            col: tokens[0].col,
                            ln: tokens[0].ln,
                            reason: "Unexpected token",
                        },
                    ),
                );
            }
            p_count = p_count - 1;
        }
        i = i + 1;
    }
    Some(
        Err(
            ParsingError {
                col: tokens[0].col,
                ln: tokens[0].ln,
                reason: "Couldn't find ',' in matrix initialization",
            },
        ),
    )
}

} // verus!
