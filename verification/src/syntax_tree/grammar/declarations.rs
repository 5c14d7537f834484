use vstd::prelude::*;

use crate::syntax_tree::syntax::{BlockV, ConstantInitV, GlobalBlockV, InitV, ParsingError, Types};
use crate::tokenize::positions::{in_source_order, precedes};
use crate::tokenize::{TokenKey, TokenV};
use super::blocks::{
    closing_brace, first_key, first_misplaced, lemma_closing_brace, lemma_first_key,
    spec_variable_init,
};
use super::expression::spec_eval;
use super::{
    as_constant, as_function, as_import, cons_global, spec_constant_eval, spec_func_eval,
    spec_grammar, spec_import_eval, top_from,
};

verus! {

/// Token `t` names the type `tpe`, one of those whose value is an
/// expression: `str`, `num`, `bln` or `emp`.
pub open spec fn names_plain_type(t: TokenV, tpe: Types) -> bool {
    ||| (t.raw == Some("str"@) && tpe == Types::String)
    ||| (t.raw == Some("num"@) && tpe == Types::Number)
    ||| (t.raw == Some("bln"@) && tpe == Types::Boolean)
    ||| (t.raw == Some("emp"@) && tpe == Types::Empty)
}

/// The tokens open as `first name : type =` do, `name` being the text of
/// the second token.
pub open spec fn declaration_head(t: Seq<TokenV>, first: TokenKey, name: Seq<char>) -> bool {
    &&& t.len() >= 6
    &&& t[0].key == first
    &&& t[1].key == TokenKey::Keyword
    &&& t[1].raw == Some(name)
    &&& t[2].key == TokenKey::Colon
    &&& t[3].key == TokenKey::Keyword
    &&& t[4].key == TokenKey::Assign
}

proof fn lemma_plain_type(t: TokenV, tpe: Types)
    requires
        names_plain_type(t, tpe),
    ensures
        super::get_type::spec_get_type(t) == Some(Ok::<Types, ParsingError>(tpe)),
{
    reveal_strlit("str");
    reveal_strlit("num");
    reveal_strlit("bln");
    reveal_strlit("mtx");
    reveal_strlit("lst");
    reveal_strlit("emp");
    assert("str"@ =~= seq!['s', 't', 'r']);
    assert("num"@ =~= seq!['n', 'u', 'm']);
    assert("bln"@ =~= seq!['b', 'l', 'n']);
    assert("mtx"@ =~= seq!['m', 't', 'x']);
    assert("lst"@ =~= seq!['l', 's', 't']);
    assert("emp"@ =~= seq!['e', 'm', 'p']);
}

proof fn lemma_head_in_order(t: Seq<TokenV>, first: TokenKey, name: Seq<char>)
    requires
        declaration_head(t, first, name),
    ensures
        first_misplaced(t, first, 0) is None,
{
    assert(first_misplaced(t, first, 5) is None);
    assert(first_misplaced(t, first, 4) is None);
    assert(first_misplaced(t, first, 3) is None);
    assert(first_misplaced(t, first, 2) is None);
    assert(first_misplaced(t, first, 1) is None);
}

/// A variable of type `str`, `num`, `bln` or `emp` takes as its value the
/// expression between `=` and the closing `;`; only `mtx` and `lst` take
/// bracketed sizes.
pub proof fn law_plain_variable_takes_expression(t: Seq<TokenV>, name: Seq<char>, tpe: Types)
    requires
        declaration_head(t, TokenKey::Variable, name),
        names_plain_type(t[3], tpe),
    ensures
        spec_variable_init(t) == match spec_eval(t.subrange(5, t.len() - 1)) {
            Some(Ok(x)) => Some(
                Ok(
                    BlockV::VariableInit {
                        col: t[0].col,
                        ln: t[0].ln,
                        value: InitV::Expression(x),
                        tpe,
                        name,
                    },
                ),
            ),
            Some(Err(e)) => Some(Err(e)),
            None => None,
        },
{
    lemma_head_in_order(t, TokenKey::Variable, name);
    lemma_plain_type(t[3], tpe);
}

/// A constant of type `str`, `num`, `bln` or `emp` is accepted, its value
/// being the expression between `=` and the closing `;`, and exported
/// exactly when asked.
pub proof fn law_plain_constant_accepted(t: Seq<TokenV>, name: Seq<char>, tpe: Types, exp: bool)
    requires
        declaration_head(t, TokenKey::Constant, name),
        names_plain_type(t[3], tpe),
    ensures
        spec_constant_eval(t, exp) == match spec_eval(t.subrange(5, t.len() - 1)) {
            Some(Ok(v)) => Some(
                Ok(
                    ConstantInitV { col: t[0].col, ln: t[0].ln, tpe, exp, name, value: v },
                ),
            ),
            Some(Err(e)) => Some(Err(e)),
            None => None,
        },
{
    lemma_head_in_order(t, TokenKey::Constant, name);
    lemma_plain_type(t[3], tpe);
}

/// A matrix or a list cannot be a constant: such a declaration is refused
/// at its type.
pub proof fn law_sized_constant_refused(t: Seq<TokenV>, name: Seq<char>, exp: bool)
    requires
        declaration_head(t, TokenKey::Constant, name),
        t[3].raw == Some("mtx"@) || t[3].raw == Some("lst"@),
    ensures
        spec_constant_eval(t, exp) == Some(
            Err::<ConstantInitV, ParsingError>(
                ParsingError {
                    col: t[3].col,
                    ln: t[3].ln,
                    reason: "Invalid type for a constant variable",
                },
            ),
        ),
{
    lemma_head_in_order(t, TokenKey::Constant, name);
    reveal_strlit("str");
    reveal_strlit("num");
    reveal_strlit("bln");
    reveal_strlit("mtx");
    reveal_strlit("lst");
    assert("str"@ =~= seq!['s', 't', 'r']);
    assert("num"@ =~= seq!['n', 'u', 'm']);
    assert("bln"@ =~= seq!['b', 'l', 'n']);
    assert("mtx"@ =~= seq!['m', 't', 'x']);
    assert("lst"@ =~= seq!['l', 's', 't']);
}

/// An exported block of a program stands where a `fnc` or `cst` token does
/// that comes right after an `exp` token.
#[verifier::opaque]
pub open spec fn export_marked(t: Seq<TokenV>, g: GlobalBlockV) -> bool {
    match g {
        GlobalBlockV::Function(f) => f.exp ==> exists|j: int|
            1 <= j < t.len() && (#[trigger] t[j]).key == TokenKey::Function && t[j].ln == f.ln
                && t[j].col == f.col && t[j - 1].key == TokenKey::Export,
        GlobalBlockV::ConstantInit(c) => c.exp ==> exists|j: int|
            1 <= j < t.len() && (#[trigger] t[j]).key == TokenKey::Constant && t[j].ln == c.ln
                && t[j].col == c.col && t[j - 1].key == TokenKey::Export,
        GlobalBlockV::Import(_) => true,
    }
}

proof fn lemma_cons_marked(
    t: Seq<TokenV>,
    g: Option<Result<GlobalBlockV, ParsingError>>,
    rest: Option<Result<Seq<GlobalBlockV>, ParsingError>>,
)
    requires
        g matches Some(Ok(x)) ==> export_marked(t, x),
        rest matches Some(Ok(r)) ==> forall|k: int|
            0 <= k < r.len() ==> export_marked(t, #[trigger] r[k]),
    ensures
        cons_global(g, rest) matches Some(Ok(gs)) ==> forall|k: int|
            0 <= k < gs.len() ==> export_marked(t, #[trigger] gs[k]),
{
    if let Some(Ok(x)) = g {
        if let Some(Ok(r)) = rest {
            let gs = seq![x] + r;
            assert forall|k: int| 0 <= k < gs.len() implies export_marked(t, #[trigger] gs[k]) by {
                if k > 0 {
                    assert(gs[k] == r[k - 1]);
                }
            }
        }
    }
}

proof fn lemma_function_marked(t: Seq<TokenV>, i: int, ce: int, is_exp: bool)
    requires
        0 <= i <= ce < t.len(),
        is_exp ==> 1 <= i && t[i - 1].key == TokenKey::Export,
        t[i].key == TokenKey::Function,
    ensures
        as_function(spec_func_eval(t.subrange(i, ce + 1), is_exp)) matches Some(Ok(g))
            ==> export_marked(t, g),
{
    reveal(export_marked);
    let u = t.subrange(i, ce + 1);
    assert(u[0] == t[i]);
}

proof fn lemma_constant_marked(t: Seq<TokenV>, i: int, s: int, is_exp: bool)
    requires
        0 <= i <= s < t.len(),
        is_exp ==> 1 <= i && t[i - 1].key == TokenKey::Export,
        t[i].key == TokenKey::Constant,
    ensures
        as_constant(spec_constant_eval(t.subrange(i, s + 1), is_exp)) matches Some(Ok(g))
            ==> export_marked(t, g),
{
    reveal(export_marked);
    let u = t.subrange(i, s + 1);
    assert(u[0] == t[i]);
}

proof fn lemma_top_marked(t: Seq<TokenV>, i: int, is_exp: bool)
    requires
        0 <= i,
        is_exp ==> 1 <= i <= t.len() && t[i - 1].key == TokenKey::Export,
    ensures
        top_from(t, i, is_exp) matches Some(Ok(gs)) ==> forall|k: int|
            0 <= k < gs.len() ==> export_marked(t, #[trigger] gs[k]),
    decreases t.len() - i,
{
    if i >= t.len() {
        return;
    }
    let tok = t[i];
    lemma_first_key(t, TokenKey::CurlyBraceLeft, i);
    lemma_first_key(t, TokenKey::SemiColon, i);
    if tok.key == TokenKey::Function {
        if let Some(cs) = first_key(t, TokenKey::CurlyBraceLeft, i) {
            lemma_closing_brace(t, cs + 1, 1);
            if let Some(ce) = closing_brace(t, cs + 1, 1) {
                lemma_top_marked(t, ce + 1, false);
                lemma_function_marked(t, i, ce, is_exp);
                lemma_cons_marked(
                    t,
                    as_function(spec_func_eval(t.subrange(i, ce + 1), is_exp)),
                    top_from(t, ce + 1, false),
                );
            }
        }
    } else if tok.key == TokenKey::Constant {
        if let Some(s) = first_key(t, TokenKey::SemiColon, i) {
            lemma_top_marked(t, s + 1, false);
            lemma_constant_marked(t, i, s, is_exp);
            lemma_cons_marked(
                t,
                as_constant(spec_constant_eval(t.subrange(i, s + 1), is_exp)),
                top_from(t, s + 1, false),
            );
        }
    } else if tok.key == TokenKey::Import {
        if !is_exp {
            if let Some(s) = first_key(t, TokenKey::SemiColon, i) {
                lemma_top_marked(t, s + 1, false);
                if let Some(Ok(imp)) = spec_import_eval(t.subrange(i, s + 1)) {
                    reveal(export_marked);
                    assert(export_marked(t, GlobalBlockV::Import(imp)));
                }
                lemma_cons_marked(
                    t,
                    as_import(spec_import_eval(t.subrange(i, s + 1))),
                    top_from(t, s + 1, false),
                );
            }
        }
    } else if tok.key == TokenKey::Export {
        if !is_exp {
            lemma_top_marked(t, i + 1, true);
        }
    }
}

/// An `exp` marker exports only the block right after it: in a parsed
/// program, every exported function or constant stands at a `fnc` or `cst`
/// token that comes right after an `exp` token.
pub proof fn law_export_marks_next_block_only(t: Seq<TokenV>)
    ensures
        spec_grammar(t) matches Some(Ok(gs)) ==> forall|k: int|
            0 <= k < gs.len() ==> export_marked(t, #[trigger] gs[k]),
{
    lemma_top_marked(t, 0, false);
}


/// Token `j` is a `key` token at line `ln`, column `col`, with an `exp`
/// token right before it.
pub open spec fn marked_at(t: Seq<TokenV>, j: int, key: TokenKey, ln: usize, col: usize) -> bool {
    1 <= j < t.len() && t[j].key == key && t[j].ln == ln && t[j].col == col && t[j - 1].key
        == TokenKey::Export
}

/// A function or constant of a program is exported exactly when an `exp`
/// token stands right before the `fnc` or `cst` token where it stands.
#[verifier::opaque]
pub open spec fn export_exact(t: Seq<TokenV>, g: GlobalBlockV) -> bool {
    match g {
        GlobalBlockV::Function(f) => f.exp <==> exists|j: int|
            #[trigger] marked_at(t, j, TokenKey::Function, f.ln, f.col),
        GlobalBlockV::ConstantInit(c) => c.exp <==> exists|j: int|
            #[trigger] marked_at(t, j, TokenKey::Constant, c.ln, c.col),
        GlobalBlockV::Import(_) => true,
    }
}

proof fn lemma_cons_exact(
    t: Seq<TokenV>,
    g: Option<Result<GlobalBlockV, ParsingError>>,
    rest: Option<Result<Seq<GlobalBlockV>, ParsingError>>,
)
    requires
        g matches Some(Ok(x)) ==> export_exact(t, x),
        rest matches Some(Ok(r)) ==> forall|k: int|
            0 <= k < r.len() ==> export_exact(t, #[trigger] r[k]),
    ensures
        cons_global(g, rest) matches Some(Ok(gs)) ==> forall|k: int|
            0 <= k < gs.len() ==> export_exact(t, #[trigger] gs[k]),
{
    if let Some(Ok(x)) = g {
        if let Some(Ok(r)) = rest {
            let gs = seq![x] + r;
            assert forall|k: int| 0 <= k < gs.len() implies export_exact(t, #[trigger] gs[k]) by {
                if k > 0 {
                    assert(gs[k] == r[k - 1]);
                }
            }
        }
    }
}

/// Where the block at `i` begins: an `exp` marker stands right before it
/// exactly when `is_exp` holds.
pub open spec fn marker_state(t: Seq<TokenV>, i: int, is_exp: bool) -> bool {
    is_exp <==> (1 <= i <= t.len() && t[i - 1].key == TokenKey::Export)
}

/// The tokens stand at pairwise different places (kept opaque so that the
/// proofs below only use it where they need it).
#[verifier::opaque]
spec fn distinct_places(t: Seq<TokenV>) -> bool {
    in_source_order(t)
}

proof fn lemma_unique_position(t: Seq<TokenV>, i: int, j: int)
    requires
        distinct_places(t),
        0 <= i < t.len(),
        0 <= j < t.len(),
        t[j].ln == t[i].ln,
        t[j].col == t[i].col,
    ensures
        i == j,
{
    reveal(distinct_places);
    if i < j {
        assert(precedes(t[i], t[j]));
    } else if j < i {
        assert(precedes(t[j], t[i]));
    }
}

proof fn lemma_function_exact(t: Seq<TokenV>, i: int, ce: int, is_exp: bool)
    requires
        distinct_places(t),
        0 <= i <= ce < t.len(),
        marker_state(t, i, is_exp),
        t[i].key == TokenKey::Function,
    ensures
        as_function(spec_func_eval(t.subrange(i, ce + 1), is_exp)) matches Some(Ok(g))
            ==> export_exact(t, g),
{
    reveal(export_exact);
    let u = t.subrange(i, ce + 1);
    assert(u[0] == t[i]);
    if let Some(Ok(f)) = spec_func_eval(u, is_exp) {
        if f.exp {
            assert(marked_at(t, i, TokenKey::Function, f.ln, f.col));
        } else {
            assert forall|j: int| !#[trigger] marked_at(t, j, TokenKey::Function, f.ln, f.col) by {
                if 1 <= j < t.len() && t[j].ln == f.ln && t[j].col == f.col {
                    lemma_unique_position(t, i, j);
                }
            }
        }
    }
}

proof fn lemma_constant_exact(t: Seq<TokenV>, i: int, s: int, is_exp: bool)
    requires
        distinct_places(t),
        0 <= i <= s < t.len(),
        marker_state(t, i, is_exp),
        t[i].key == TokenKey::Constant,
    ensures
        as_constant(spec_constant_eval(t.subrange(i, s + 1), is_exp)) matches Some(Ok(g))
            ==> export_exact(t, g),
{
    reveal(export_exact);
    let u = t.subrange(i, s + 1);
    assert(u[0] == t[i]);
    if let Some(Ok(c)) = spec_constant_eval(u, is_exp) {
        if c.exp {
            assert(marked_at(t, i, TokenKey::Constant, c.ln, c.col));
        } else {
            assert forall|j: int| !#[trigger] marked_at(t, j, TokenKey::Constant, c.ln, c.col) by {
                if 1 <= j < t.len() && t[j].ln == c.ln && t[j].col == c.col {
                    lemma_unique_position(t, i, j);
                }
            }
        }
    }
}

proof fn lemma_closing_is_brace(t: Seq<TokenV>, from: int, depth: nat)
    ensures
        closing_brace(t, from, depth) matches Some(j) ==> 0 <= j < t.len() && t[j].key
            == TokenKey::CurlyBraceRight,
    decreases t.len() - from,
{
    if 0 <= from < t.len() {
        if t[from].key == TokenKey::CurlyBraceLeft {
            lemma_closing_is_brace(t, from + 1, depth + 1);
        } else if t[from].key == TokenKey::CurlyBraceRight {
            if depth > 1 {
                lemma_closing_is_brace(t, from + 1, (depth - 1) as nat);
            }
        } else {
            lemma_closing_is_brace(t, from + 1, depth);
        }
    }
}

proof fn lemma_top_exact(t: Seq<TokenV>, i: int, is_exp: bool)
    requires
        distinct_places(t),
        0 <= i,
        marker_state(t, i, is_exp),
    ensures
        top_from(t, i, is_exp) matches Some(Ok(gs)) ==> forall|k: int|
            0 <= k < gs.len() ==> export_exact(t, #[trigger] gs[k]),
    decreases t.len() - i,
{
    if i >= t.len() {
        return;
    }
    let tok = t[i];
    lemma_first_key(t, TokenKey::CurlyBraceLeft, i);
    lemma_first_key(t, TokenKey::SemiColon, i);
    if tok.key == TokenKey::Function {
        if let Some(cs) = first_key(t, TokenKey::CurlyBraceLeft, i) {
            lemma_closing_brace(t, cs + 1, 1);
            lemma_closing_is_brace(t, cs + 1, 1);
            if let Some(ce) = closing_brace(t, cs + 1, 1) {
                assert(marker_state(t, ce + 1, false));
                lemma_top_exact(t, ce + 1, false);
                lemma_function_exact(t, i, ce, is_exp);
                lemma_cons_exact(
                    t,
                    as_function(spec_func_eval(t.subrange(i, ce + 1), is_exp)),
                    top_from(t, ce + 1, false),
                );
            }
        }
    } else if tok.key == TokenKey::Constant {
        if let Some(s) = first_key(t, TokenKey::SemiColon, i) {
            assert(marker_state(t, s + 1, false));
            lemma_top_exact(t, s + 1, false);
            lemma_constant_exact(t, i, s, is_exp);
            lemma_cons_exact(
                t,
                as_constant(spec_constant_eval(t.subrange(i, s + 1), is_exp)),
                top_from(t, s + 1, false),
            );
        }
    } else if tok.key == TokenKey::Import {
        if !is_exp {
            if let Some(s) = first_key(t, TokenKey::SemiColon, i) {
                assert(marker_state(t, s + 1, false));
                lemma_top_exact(t, s + 1, false);
                if let Some(Ok(imp)) = spec_import_eval(t.subrange(i, s + 1)) {
                    reveal(export_exact);
                    assert(export_exact(t, GlobalBlockV::Import(imp)));
                }
                lemma_cons_exact(
                    t,
                    as_import(spec_import_eval(t.subrange(i, s + 1))),
                    top_from(t, s + 1, false),
                );
            }
        }
    } else if tok.key == TokenKey::Export {
        if !is_exp {
            assert(marker_state(t, i + 1, true));
            lemma_top_exact(t, i + 1, true);
        }
    }
}

/// For tokens in source order (as the tokenizer gives them), a function or
/// constant of a parsed program is exported exactly when `exp` stands right
/// before it.
pub proof fn law_exported_exactly_after_marker(t: Seq<TokenV>)
    requires
        in_source_order(t),
    ensures
        spec_grammar(t) matches Some(Ok(gs)) ==> forall|k: int|
            0 <= k < gs.len() ==> export_exact(t, #[trigger] gs[k]),
{
    assert(distinct_places(t)) by {
        reveal(distinct_places);
    }
    lemma_top_exact(t, 0, false);
}

} // verus!
