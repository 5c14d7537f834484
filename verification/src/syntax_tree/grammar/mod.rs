use vstd::prelude::*;

pub mod blocks;
pub mod declarations;
pub mod positions;
pub mod precedence;
pub mod expression;
pub mod get_type;

use crate::syntax_tree::syntax::{
    ConstantInit, ConstantInitV, ExprV, Expression, Function, FunctionV, GlobalBlock, GlobalBlockV,
    Import, ImportV, ParsingError, Types, globals_outcome, globals_view, outcome_view, result_view,
};
use crate::tokenize::{Token, TokenKey, TokenV, token_views};
use blocks::{
    closing_brace, find_closing, find_key, first_key, first_misplaced, lemma_closing_brace,
    lemma_first_key, spec_blocks,
};
use blocks::variable_init::find_misplaced;
use expression::{error_at, lemma_views_subrange, spec_eval};
use get_type::spec_get_type;

verus! {

// ---------------------------------------------------------------------------
// Specification
// ---------------------------------------------------------------------------

/// A function `func name ... { blocks }` (`fnc` is read as `func` too): the
/// name is the second token and the body lies between the first `{` and the
/// last token.
pub open spec fn spec_func_eval(t: Seq<TokenV>, exp: bool) -> Option<
    Result<FunctionV, ParsingError>,
> {
    if t.len() == 0 {
        None
    } else if t[0].key != TokenKey::Function {
        Some(Err(error_at(t[0], "Expected keyword fnc")))
    } else if t.len() == 1 {
        None
    } else if t[1].key != TokenKey::Keyword {
        Some(Err(error_at(t[1], "Expected name on function")))
    } else {
        match t[1].raw {
            None => None,
            Some(name) => match first_key(t, TokenKey::CurlyBraceLeft, 2) {
                None => None,
                Some(k) => {
                    if k < 2 || k + 1 > t.len() - 1 {
                        None
                    } else {
                        match spec_blocks(t.subrange(k + 1, t.len() - 1)) {
                            Some(Ok(bs)) => Some(
                                Ok(
                                    FunctionV {
                                        col: t[0].col,
                                        ln: t[0].ln,
                                        ret: Types::Empty,
                                        exp,
                                        params: Seq::empty(),
                                        name,
                                        blocks: bs,
                                    },
                                ),
                            ),
                            Some(Err(e)) => Some(Err(e)),
                            None => None,
                        }
                    }
                },
            },
        }
    }
}

/// An import `imp name frm "source" ;`.
pub open spec fn spec_import_eval(t: Seq<TokenV>) -> Option<Result<ImportV, ParsingError>> {
    if t.len() == 0 {
        None
    } else if t.len() != 5 {
        Some(Err(error_at(t[0], "Too many tokens in keyword import block")))
    } else if t[0].key != TokenKey::Import {
        Some(Err(error_at(t[0], "Expected keyword imp")))
    } else if t[1].key != TokenKey::Keyword {
        Some(Err(error_at(t[1], "Expected a keyword")))
    } else if t[4].key != TokenKey::SemiColon {
        Some(Err(error_at(t[2], "Expected keyword ;")))
    } else {
        match spec_eval(t.subrange(3, 4)) {
            Some(Ok(ExprV::Str { val, .. })) => match t[1].raw {
                Some(namespace) => Some(
                    Ok(ImportV { col: t[0].col, ln: t[0].ln, namespace, from: val }),
                ),
                None => None,
            },
            Some(Ok(_)) => None,
            Some(Err(e)) => Some(Err(e)),
            None => None,
        }
    }
}

/// A constant `cst name : type = value ;`; matrices and lists cannot be
/// constants.
pub open spec fn spec_constant_eval(t: Seq<TokenV>, exp: bool) -> Option<
    Result<ConstantInitV, ParsingError>,
> {
    if t.len() == 0 {
        None
    } else if t.len() < 6 {
        Some(Err(error_at(t[0], "Invalid variable initalization")))
    } else {
        match first_misplaced(t, TokenKey::Constant, 0) {
            Some(i) => Some(Err(error_at(t[i], "Invalid word"))),
            None => match spec_get_type(t[3]) {
                None => None,
                Some(Err(e)) => Some(Err(e)),
                Some(Ok(tpe)) => {
                    if tpe == Types::Matrix || tpe == Types::List {
                        Some(Err(error_at(t[3], "Invalid type for a constant variable")))
                    } else {
                        match t[1].raw {
                            None => None,
                            Some(name) => match spec_eval(t.subrange(5, t.len() - 1)) {
                                Some(Ok(v)) => Some(
                                    Ok(
                                        ConstantInitV {
                                            col: t[0].col,
                                            ln: t[0].ln,
                                            tpe,
                                            exp,
                                            name,
                                            value: v,
                                        },
                                    ),
                                ),
                                Some(Err(e)) => Some(Err(e)),
                                None => None,
                            },
                        }
                    }
                },
            },
        }
    }
}

/// A top-level block followed by the blocks after it.
pub open spec fn cons_global(
    g: Option<Result<GlobalBlockV, ParsingError>>,
    rest: Option<Result<Seq<GlobalBlockV>, ParsingError>>,
) -> Option<Result<Seq<GlobalBlockV>, ParsingError>> {
    match g {
        Some(Ok(x)) => match rest {
            Some(Ok(r)) => Some(Ok(seq![x] + r)),
            other => other,
        },
        Some(Err(e)) => Some(Err(e)),
        None => None,
    }
}

/// A function read as a top-level block.
pub open spec fn as_function(f: Option<Result<FunctionV, ParsingError>>) -> Option<
    Result<GlobalBlockV, ParsingError>,
> {
    match f {
        Some(Ok(x)) => Some(Ok(GlobalBlockV::Function(x))),
        Some(Err(e)) => Some(Err(e)),
        None => None,
    }
}

/// An import read as a top-level block.
pub open spec fn as_import(f: Option<Result<ImportV, ParsingError>>) -> Option<
    Result<GlobalBlockV, ParsingError>,
> {
    match f {
        Some(Ok(x)) => Some(Ok(GlobalBlockV::Import(x))),
        Some(Err(e)) => Some(Err(e)),
        None => None,
    }
}

/// A constant read as a top-level block.
pub open spec fn as_constant(f: Option<Result<ConstantInitV, ParsingError>>) -> Option<
    Result<GlobalBlockV, ParsingError>,
> {
    match f {
        Some(Ok(x)) => Some(Ok(GlobalBlockV::ConstantInit(x))),
        Some(Err(e)) => Some(Err(e)),
        None => None,
    }
}

/// The top-level blocks from token `i` on, `is_exp` telling whether an `exp`
/// marker stands right before.
pub open spec fn top_from(t: Seq<TokenV>, i: int, is_exp: bool) -> Option<
    Result<Seq<GlobalBlockV>, ParsingError>,
>
    decreases t.len() - i,
{
    if i < 0 || i >= t.len() {
        Some(Ok(Seq::empty()))
    } else {
        let tok = t[i];
        proof {
            lemma_first_key(t, TokenKey::CurlyBraceLeft, i);
            lemma_first_key(t, TokenKey::SemiColon, i);
        }
        if tok.key == TokenKey::Function {
            match first_key(t, TokenKey::CurlyBraceLeft, i) {
                None => Some(
                    Err(error_at(tok, "Can't finding starting parentheses for function")),
                ),
                Some(cs) => {
                    proof {
                        lemma_closing_brace(t, cs + 1, 1);
                    }
                    match closing_brace(t, cs + 1, 1) {
                        None => Some(
                            Err(error_at(tok, "Can't finding ending parentheses for function")),
                        ),
                        Some(ce) => cons_global(
                            as_function(spec_func_eval(t.subrange(i, ce + 1), is_exp)),
                            top_from(t, ce + 1, false),
                        ),
                    }
                },
            }
        } else if tok.key == TokenKey::Constant {
            match first_key(t, TokenKey::SemiColon, i) {
                None => Some(
                    Err(
                        error_at(
                            tok,
                            "Can't finding ending semicolon for init constant statement",
                        ),
                    ),
                ),
                Some(s) => cons_global(
                    as_constant(spec_constant_eval(t.subrange(i, s + 1), is_exp)),
                    top_from(t, s + 1, false),
                ),
            }
        } else if tok.key == TokenKey::Import {
            if is_exp {
                Some(Err(error_at(tok, "Unexpected token exp")))
            } else {
                match first_key(t, TokenKey::SemiColon, i) {
                    None => Some(
                        Err(error_at(tok, "Can't finding ending semicolon for import statement")),
                    ),
                    Some(s) => cons_global(
                        as_import(spec_import_eval(t.subrange(i, s + 1))),
                        top_from(t, s + 1, is_exp),
                    ),
                }
            }
        } else if tok.key == TokenKey::Export {
            if is_exp {
                Some(Err(error_at(tok, "Unexpected token exp")))
            } else {
                top_from(t, i + 1, true)
            }
        } else {
            Some(Err(error_at(tok, "Unrecognized word")))
        }
    }
}

/// The top-level blocks of a program.
pub open spec fn spec_grammar(t: Seq<TokenV>) -> Option<Result<Seq<GlobalBlockV>, ParsingError>> {
    top_from(t, 0, false)
}


// ---------------------------------------------------------------------------
// Implementation
// ---------------------------------------------------------------------------

/// The blocks `a` already read, followed by the outcome of reading the rest.
pub open spec fn prepend_globals(
    a: Seq<GlobalBlockV>,
    rest: Option<Result<Seq<GlobalBlockV>, ParsingError>>,
) -> Option<Result<Seq<GlobalBlockV>, ParsingError>> {
    match rest {
        Some(Ok(r)) => Some(Ok(a + r)),
        other => other,
    }
}

proof fn lemma_prepend_global(
    a: Seq<GlobalBlock>,
    g: GlobalBlock,
    rest: Option<Result<Seq<GlobalBlockV>, ParsingError>>,
)
    ensures
        prepend_globals(globals_view(a), cons_global(Some(Ok(g@)), rest)) == prepend_globals(
            globals_view(a.push(g)),
            rest,
        ),
{
    assert(globals_view(a.push(g)) =~= globals_view(a).push(g@));
    if let Some(Ok(r)) = rest {
        assert(globals_view(a) + (seq![g@] + r) =~= globals_view(a).push(g@) + r);
    }
}

/// A function `func name ... { blocks }` (or `fnc ...`), exported where `exp`
/// holds.
pub fn try_func_eval(tokens: &[Token], exp: bool) -> (r: Option<Result<Function, ParsingError>>)
    ensures
        outcome_view(r) == spec_func_eval(token_views(tokens@), exp),
{
    let ghost t = token_views(tokens@);
    let n = tokens.len();
    if n == 0 {
        return None;
    }
    if tokens[0].key != TokenKey::Function {
        return Some(
            Err(
                ParsingError {
                    col: tokens[0].col,
                    ln: tokens[0].ln,
                    reason: "Expected keyword fnc",
                },
            ),
        );
    }
    if n == 1 {
        return None;
    }
    if tokens[1].key != TokenKey::Keyword {
        return Some(
            Err(
                ParsingError {
                    col: tokens[1].col,
                    ln: tokens[1].ln,
                    reason: "Expected name on function",
                },
            ),
        );
    }
    let name = match tokens[1].raw.as_ref() {
        Some(raw) => raw.clone(),
        None => {
            return None;
        },
    };
    proof {
        lemma_first_key(t, TokenKey::CurlyBraceLeft, 2);
    }
    let k = match find_key(tokens, TokenKey::CurlyBraceLeft, 2) {
        Some(k) => k,
        None => {
            return None;
        },
    };
    if k + 1 > n - 1 {
        return None;
    }
    proof {
        lemma_views_subrange(tokens@, k + 1, n - 1);
    }
    match blocks::try_eval(&tokens[k + 1..n - 1]) {
        Some(Ok(bs)) => {
            let f = Function {
                col: tokens[0].col,
                ln: tokens[0].ln,
                ret: Types::Empty,
                exp,
                params: Vec::new(),
                name,
                blocks: bs,
            };
            assert(f@.params =~= Seq::<Types>::empty());
            Some(Ok(f))
        },
        Some(Err(e)) => Some(Err(e)),
        None => None,
    }
}

/// A function (see `try_func_eval`), on tokens that the parser can judge.
pub fn func_eval(tokens: &[Token], exp: bool) -> (r: Result<Function, ParsingError>)
    requires
        spec_func_eval(token_views(tokens@), exp) is Some,
    ensures
        Some(result_view(r)) == spec_func_eval(token_views(tokens@), exp),
{
    try_func_eval(tokens, exp).unwrap()
}

/// An import `imp name frm "source" ;`.
pub fn try_import_eval(tokens: &[Token]) -> (r: Option<Result<Import, ParsingError>>)
    ensures
        outcome_view(r) == spec_import_eval(token_views(tokens@)),
{
    if tokens.len() == 0 {
        return None;
    }
    if tokens.len() != 5 {
        return Some(
            Err(
                ParsingError {
                    col: tokens[0].col,
                    ln: tokens[0].ln,
                    reason: "Too many tokens in keyword import block",
                },
            ),
        );
    }
    if tokens[0].key != TokenKey::Import {
        return Some(
            Err(
                ParsingError {
                    col: tokens[0].col,
                    ln: tokens[0].ln,
                    reason: "Expected keyword imp",
                },
            ),
        );
    }
    if tokens[1].key != TokenKey::Keyword {
        return Some(
            Err(
                ParsingError { col: tokens[1].col, ln: tokens[1].ln, reason: "Expected a keyword" },
            ),
        );
    }
    if tokens[4].key != TokenKey::SemiColon {
        return Some(
            Err(
                ParsingError { col: tokens[2].col, ln: tokens[2].ln, reason: "Expected keyword ;" },
            ),
        );
    }
    proof {
        lemma_views_subrange(tokens@, 3, 4);
    }
    match expression::try_eval(&tokens[3..4]) {
        Some(Ok(Expression::Str(value))) => match tokens[1].raw.as_ref() {
            Some(raw) => Some(
                Ok(
                    Import {
                        col: tokens[0].col,
                        ln: tokens[0].ln,
                        namespace: raw.clone(),
                        from: value.val,
                    },
                ),
            ),
            None => None,
        },
        Some(Ok(_)) => None,
        Some(Err(e)) => Some(Err(e)),
        None => None,
    }
}

/// An import (see `try_import_eval`), on tokens that the parser can judge.
pub fn import_eval(tokens: &[Token]) -> (r: Result<Import, ParsingError>)
    requires
        spec_import_eval(token_views(tokens@)) is Some,
    ensures
        Some(result_view(r)) == spec_import_eval(token_views(tokens@)),
{
    try_import_eval(tokens).unwrap()
}

/// A constant `cst name : type = value ;`, exported where `exp` holds.
pub fn try_constant_eval(tokens: &[Token], exp: bool) -> (r: Option<
    Result<ConstantInit, ParsingError>,
>)
    ensures
        outcome_view(r) == spec_constant_eval(token_views(tokens@), exp),
{
    let n = tokens.len();
    if n == 0 {
        return None;
    }
    if n < 6 {
        return Some(
            Err(
                ParsingError {
                    col: tokens[0].col,
                    ln: tokens[0].ln,
                    reason: "Invalid variable initalization",
                },
            ),
        );
    }
    if let Some(i) = find_misplaced(tokens, TokenKey::Constant) {
        return Some(
            Err(ParsingError { col: tokens[i].col, ln: tokens[i].ln, reason: "Invalid word" }),
        );
    }
    let tpe = match get_type::try_eval(&tokens[3]) {
        Some(Ok(tpe)) => tpe,
        Some(Err(e)) => {
            return Some(Err(e));
        },
        None => {
            return None;
        },
    };
    let invalid_type = match tpe {
        Types::Matrix => true,
        Types::List => true,
        _ => false,
    };
    if invalid_type {
        return Some(
            Err(
                ParsingError {
                    col: tokens[3].col,
                    ln: tokens[3].ln,
                    reason: "Invalid type for a constant variable",
                },
            ),
        );
    }
    let name = match tokens[1].raw.as_ref() {
        Some(raw) => raw.clone(),
        None => {
            return None;
        },
    };
    proof {
        lemma_views_subrange(tokens@, 5, n - 1);
    }
    match expression::try_eval(&tokens[5..n - 1]) {
        Some(Ok(value)) => Some(
            Ok(ConstantInit { col: tokens[0].col, ln: tokens[0].ln, tpe, exp, name, value }),
        ),
        Some(Err(e)) => Some(Err(e)),
        None => None,
    }
}

/// A constant (see `try_constant_eval`), on tokens that the parser can
/// judge.
pub fn constant_eval(tokens: &[Token], exp: bool) -> (r: Result<ConstantInit, ParsingError>)
    requires
        spec_constant_eval(token_views(tokens@), exp) is Some,
    ensures
        Some(result_view(r)) == spec_constant_eval(token_views(tokens@), exp),
{
    try_constant_eval(tokens, exp).unwrap()
}

/// The top-level blocks of a program: functions, constants and imports, each
/// function and constant possibly marked by a preceding `exp`.
pub fn try_eval(tokens: &[Token]) -> (r: Option<Result<Vec<GlobalBlock>, ParsingError>>)
    ensures
        globals_outcome(r) == spec_grammar(token_views(tokens@)),
{
    let ghost t = token_views(tokens@);
    let n = tokens.len();
    let mut i: usize = 0;
    let mut global_blocks: Vec<GlobalBlock> = Vec::new();
    let mut is_exp = false;
    assert(globals_view(global_blocks@) =~= Seq::<GlobalBlockV>::empty());
    assert(prepend_globals(Seq::empty(), top_from(t, 0, false)) == top_from(t, 0, false)) by {
        if let Some(Ok(r)) = top_from(t, 0, false) {
            assert(Seq::<GlobalBlockV>::empty() + r =~= r);
        }
    }
    while i < n
        invariant
            n == tokens@.len(),
            t == token_views(tokens@),
            i <= n,
            spec_grammar(t) == prepend_globals(globals_view(global_blocks@), top_from(t, i as int, is_exp)),
        decreases n - i,
    {
        proof {
            lemma_first_key(t, TokenKey::CurlyBraceLeft, i as int);
            lemma_first_key(t, TokenKey::SemiColon, i as int);
        }
        let token = &tokens[i];
        if token.key == TokenKey::Function {
            let curly_start = match find_key(tokens, TokenKey::CurlyBraceLeft, i) {
                Some(cs) => cs,
                None => {
                    return Some(Err(
                        ParsingError {
                            col: token.col,
                            ln: token.ln,
                            reason: "Can't finding starting parentheses for function",
                        },
                    ));
                },
            };
            proof {
                lemma_closing_brace(t, curly_start + 1, 1);
            }
            let curly_end = match find_closing(tokens, curly_start + 1) {
                Some(ce) => ce,
                None => {
                    return Some(Err(
                        ParsingError {
                            col: token.col,
                            ln: token.ln,
                            reason: "Can't finding ending parentheses for function",
                        },
                    ));
                },
            };
            proof {
                lemma_views_subrange(tokens@, i as int, curly_end + 1);
            }
            match try_func_eval(&tokens[i..curly_end + 1], is_exp) {
                Some(Ok(f)) => {
                    let g = GlobalBlock::Function(f);
                    proof {
                        lemma_prepend_global(global_blocks@, g, top_from(t, curly_end + 1, false));
                    }
                    global_blocks.push(g);
                },
                Some(Err(e)) => {
                    return Some(Err(e));
                },
                None => {
                    return None;
                },
            }
            is_exp = false;
            i = curly_end + 1;
        } else if token.key == TokenKey::Constant {
            let semicolon_index = match find_key(tokens, TokenKey::SemiColon, i) {
                Some(s) => s,
                None => {
                    return Some(Err(
                        ParsingError {
                            col: token.col,
                            ln: token.ln,
                            reason: "Can't finding ending semicolon for init constant statement",
                        },
                    ));
                },
            };
            proof {
                lemma_views_subrange(tokens@, i as int, semicolon_index + 1);
            }
            match try_constant_eval(&tokens[i..semicolon_index + 1], is_exp) {
                Some(Ok(c)) => {
                    let g = GlobalBlock::ConstantInit(c);
                    proof {
                        lemma_prepend_global(global_blocks@, g, top_from(t, semicolon_index + 1, false));
                    }
                    global_blocks.push(g);
                },
                Some(Err(e)) => {
                    return Some(Err(e));
                },
                None => {
                    return None;
                },
            }
            is_exp = false;
            i = semicolon_index + 1;
        } else if token.key == TokenKey::Import {
            if is_exp {
                return Some(Err(
                    ParsingError { col: token.col, ln: token.ln, reason: "Unexpected token exp" },
                ));
            }
            let semicolon_index = match find_key(tokens, TokenKey::SemiColon, i) {
                Some(s) => s,
                None => {
                    return Some(Err(
                        ParsingError {
                            col: token.col,
                            ln: token.ln,
                            reason: "Can't finding ending semicolon for import statement",
                        },
                    ));
                },
            };
            proof {
                lemma_views_subrange(tokens@, i as int, semicolon_index + 1);
            }
            match try_import_eval(&tokens[i..semicolon_index + 1]) {
                Some(Ok(imp)) => {
                    let g = GlobalBlock::Import(imp);
                    proof {
                        lemma_prepend_global(global_blocks@, g, top_from(t, semicolon_index + 1, is_exp));
                    }
                    global_blocks.push(g);
                },
                Some(Err(e)) => {
                    return Some(Err(e));
                },
                None => {
                    return None;
                },
            }
            i = semicolon_index + 1;
        } else if token.key == TokenKey::Export {
            if is_exp {
                return Some(Err(
                    ParsingError { col: token.col, ln: token.ln, reason: "Unexpected token exp" },
                ));
            }
            is_exp = true;
            i = i + 1;
        } else {
            return Some(
                Err(ParsingError { col: token.col, ln: token.ln, reason: "Unrecognized word" }),
            );
        }
    }
    assert(globals_view(global_blocks@) + Seq::<GlobalBlockV>::empty() =~= globals_view(global_blocks@));
    Some(Ok(global_blocks))
}

/// The top-level blocks of a program (see `try_eval`), on tokens that the
/// parser can judge.
pub fn eval(tokens: &[Token]) -> (r: Result<Vec<GlobalBlock>, ParsingError>)
    requires
        spec_grammar(token_views(tokens@)) is Some,
    ensures
        globals_outcome(Some(r)) == spec_grammar(token_views(tokens@)),
{
    try_eval(tokens).unwrap()
}

} // verus!
