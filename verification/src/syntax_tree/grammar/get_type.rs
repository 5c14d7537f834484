use vstd::prelude::*;

use crate::syntax_tree::syntax::{ParsingError, Types};
use crate::text::same_text;
use crate::tokenize::{Token, TokenV};

verus! {

/// The type that a type name stands for; `None` where the token carries no
/// text.
pub open spec fn spec_get_type(t: TokenV) -> Option<Result<Types, ParsingError>> {
    match t.raw {
        None => None,
        Some(r) => Some(
            if r == "str"@ {
                Ok(Types::String)
            } else if r == "num"@ {
                Ok(Types::Number)
            } else if r == "bln"@ {
                Ok(Types::Boolean)
            } else if r == "mtx"@ {
                Ok(Types::Matrix)
            } else if r == "lst"@ {
                Ok(Types::List)
            } else if r == "emp"@ {
                Ok(Types::Empty)
            } else {
                Err(ParsingError { col: t.col, ln: t.ln, reason: "Unrecognized type" })
            },
        ),
    }
}

/// The type named by `token`: `str`, `num`, `bln`, `mtx` or `lst`, or `emp`
/// for nothing; `None` where the token carries no text.
pub fn try_eval(token: &Token) -> (r: Option<Result<Types, ParsingError>>)
    ensures
        r == spec_get_type(token@),
{
    let raw = match token.raw.as_ref() {
        Some(raw) => raw.as_str(),
        None => {
            return None;
        },
    };
    Some(
        if same_text(raw, "str") {
            Ok(Types::String)
        } else if same_text(raw, "num") {
            Ok(Types::Number)
        } else if same_text(raw, "bln") {
            Ok(Types::Boolean)
        } else if same_text(raw, "mtx") {
            Ok(Types::Matrix)
        } else if same_text(raw, "lst") {
            Ok(Types::List)
        } else if same_text(raw, "emp") {
            Ok(Types::Empty)
        } else {
            Err(ParsingError { ln: token.ln, col: token.col, reason: "Unrecognized type" })
        },
    )
}

/// The type named by a token that carries text (see `try_eval`).
pub fn eval(token: &Token) -> (r: Result<Types, ParsingError>)
    requires
        spec_get_type(token@) is Some,
    ensures
        Some(r) == spec_get_type(token@),
{
    try_eval(token).unwrap()
}

} // verus!
