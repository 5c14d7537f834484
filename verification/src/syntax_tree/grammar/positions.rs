use vstd::prelude::*;

use crate::syntax_tree::syntax::{
    ArithmeticOperators, BlockV, ExprV, FunctionV, GlobalBlockV, InitV, ParsingError,
};
use crate::tokenize::{TokenKey, TokenV};
use super::blocks::{
    blocks_from, closing_brace, cons_block, first_key, first_misplaced, lemma_closing_brace,
    lemma_first_key, spec_blocks, spec_guarded, spec_list_init, spec_matrix_init, spec_return,
    spec_variable_init,
};
use super::expression::{
    args_scan, args_step, bracket_split, combo_pass, edge_error, fold_prefix, in_pass, is_op,
    lemma_bracket_split, push_built, scan, scan_start, scan_step, qualified_name, spec_bracket_call, spec_combo,
    spec_eval, spec_func_args, spec_operand, ArgsState, BracketSplit, InterV, ScanState,
};
use super::{
    as_constant, as_function, as_import, cons_global, spec_constant_eval, spec_func_eval,
    spec_grammar, spec_import_eval, top_from,
};

verus! {

/// Some token of `t` stands at line `ln`, column `col`.
pub open spec fn at_token(t: Seq<TokenV>, ln: usize, col: usize) -> bool {
    exists|k: int| 0 <= k < t.len() && (#[trigger] t[k]).ln == ln && t[k].col == col
}

/// The error that operands joined by no operator get; it has no position.
pub open spec fn unplaced(e: ParsingError) -> bool {
    e.ln == 0 && e.col == 0 && e.reason == "any"
}

/// The error `e` points at a token of `t`, or is the one error without a
/// position.
pub open spec fn points_into(t: Seq<TokenV>, e: ParsingError) -> bool {
    at_token(t, e.ln, e.col) || unplaced(e)
}

/// The error of an outcome, if it is one, points into `t`.
pub open spec fn outcome_points_into<T>(t: Seq<TokenV>, r: Option<Result<T, ParsingError>>) -> bool {
    r matches Some(Err(e)) ==> points_into(t, e)
}

/// Every token of `u` stands where a token of `t` does.
pub open spec fn covers(t: Seq<TokenV>, u: Seq<TokenV>) -> bool {
    forall|k: int| 0 <= k < u.len() ==> at_token(t, (#[trigger] u[k]).ln, u[k].col)
}

/// The expression and every expression inside it stand at the line and
/// column of a token of `t`.
pub open spec fn expr_placed(t: Seq<TokenV>, e: ExprV) -> bool
    decreases e,
{
    match e {
        ExprV::Number { col, ln, .. } => at_token(t, ln, col),
        ExprV::Boolean { col, ln, .. } => at_token(t, ln, col),
        ExprV::Str { col, ln, .. } => at_token(t, ln, col),
        ExprV::Variable { col, ln, .. } => at_token(t, ln, col),
        ExprV::Not { col, ln, val } => at_token(t, ln, col) && expr_placed(t, *val),
        ExprV::Negate { col, ln, val } => at_token(t, ln, col) && expr_placed(t, *val),
        ExprV::FunctionCall { col, ln, params, .. } => at_token(t, ln, col) && forall|i: int|
            0 <= i < params.len() ==> expr_placed(t, #[trigger] params[i]),
        ExprV::MatrixCall { col, ln, first, second, .. } => at_token(t, ln, col) && expr_placed(
            t,
            *first,
        ) && expr_placed(t, *second),
        ExprV::ListCall { col, ln, param, .. } => at_token(t, ln, col) && expr_placed(t, *param),
        ExprV::Arithmetic { col, ln, a, b, .. } => at_token(t, ln, col) && expr_placed(t, *a)
            && expr_placed(t, *b),
    }
}

/// Each of the expressions stands at tokens of `t`.
pub open spec fn exprs_placed(t: Seq<TokenV>, es: Seq<ExprV>) -> bool {
    forall|i: int| 0 <= i < es.len() ==> expr_placed(t, #[trigger] es[i])
}

/// A variable's initial value stands at tokens of `t`.
pub open spec fn init_placed(t: Seq<TokenV>, v: InitV) -> bool {
    match v {
        InitV::Expression(e) => expr_placed(t, e),
        InitV::MatrixInit { col, ln, width, height } => at_token(t, ln, col) && expr_placed(
            t,
            width,
        ) && expr_placed(t, height),
        InitV::ListInit { col, ln, length } => at_token(t, ln, col) && expr_placed(t, length),
    }
}

/// The block and everything inside it stand at tokens of `t`.
pub open spec fn block_placed(t: Seq<TokenV>, b: BlockV) -> bool
    decreases b,
{
    match b {
        BlockV::VariableSet { col, ln, value, .. } => at_token(t, ln, col) && expr_placed(t, value),
        BlockV::VariableInit { col, ln, value, .. } => at_token(t, ln, col) && init_placed(t, value),
        BlockV::Expression(e) => expr_placed(t, e),
        BlockV::While { col, ln, eval, blocks } => at_token(t, ln, col) && expr_placed(t, eval)
            && forall|i: int| 0 <= i < blocks.len() ==> block_placed(t, #[trigger] blocks[i]),
        BlockV::Return { col, ln, eval } => at_token(t, ln, col) && (eval matches Some(e)
            ==> expr_placed(t, e)),
        BlockV::If { col, ln, eval, blocks } => at_token(t, ln, col) && expr_placed(t, eval)
            && forall|i: int| 0 <= i < blocks.len() ==> block_placed(t, #[trigger] blocks[i]),
    }
}

/// Each of the blocks stands at tokens of `t`.
pub open spec fn blocks_placed(t: Seq<TokenV>, bs: Seq<BlockV>) -> bool {
    forall|i: int| 0 <= i < bs.len() ==> block_placed(t, #[trigger] bs[i])
}

/// A top-level block and everything inside it stand at tokens of `t`.
pub open spec fn global_placed(t: Seq<TokenV>, g: GlobalBlockV) -> bool {
    match g {
        GlobalBlockV::Function(f) => at_token(t, f.ln, f.col) && blocks_placed(t, f.blocks),
        GlobalBlockV::Import(i) => at_token(t, i.ln, i.col),
        GlobalBlockV::ConstantInit(c) => at_token(t, c.ln, c.col) && expr_placed(t, c.value),
    }
}

proof fn lemma_covers_sub(t: Seq<TokenV>, a: int, b: int)
    requires
        0 <= a <= b <= t.len(),
    ensures
        covers(t, t.subrange(a, b)),
{
    let u = t.subrange(a, b);
    assert forall|k: int| 0 <= k < u.len() implies at_token(t, (#[trigger] u[k]).ln, u[k].col) by {
        assert(u[k] == t[a + k]);
    }
}

proof fn lemma_at_covers(t: Seq<TokenV>, u: Seq<TokenV>, ln: usize, col: usize)
    requires
        covers(t, u),
        at_token(u, ln, col),
    ensures
        at_token(t, ln, col),
{
    let k = choose|k: int| 0 <= k < u.len() && (#[trigger] u[k]).ln == ln && u[k].col == col;
    assert(at_token(t, u[k].ln, u[k].col));
}

proof fn lemma_expr_covers(t: Seq<TokenV>, u: Seq<TokenV>, e: ExprV)
    requires
        covers(t, u),
        expr_placed(u, e),
    ensures
        expr_placed(t, e),
    decreases e,
{
    match e {
        ExprV::Number { col, ln, .. } => lemma_at_covers(t, u, ln, col),
        ExprV::Boolean { col, ln, .. } => lemma_at_covers(t, u, ln, col),
        ExprV::Str { col, ln, .. } => lemma_at_covers(t, u, ln, col),
        ExprV::Variable { col, ln, .. } => lemma_at_covers(t, u, ln, col),
        ExprV::Not { col, ln, val } => {
            lemma_at_covers(t, u, ln, col);
            lemma_expr_covers(t, u, *val);
        },
        ExprV::Negate { col, ln, val } => {
            lemma_at_covers(t, u, ln, col);
            lemma_expr_covers(t, u, *val);
        },
        ExprV::FunctionCall { col, ln, params, .. } => {
            lemma_at_covers(t, u, ln, col);
            assert forall|i: int| 0 <= i < params.len() implies expr_placed(
                t,
                #[trigger] params[i],
            ) by {
                lemma_expr_covers(t, u, params[i]);
            }
        },
        ExprV::MatrixCall { col, ln, first, second, .. } => {
            lemma_at_covers(t, u, ln, col);
            lemma_expr_covers(t, u, *first);
            lemma_expr_covers(t, u, *second);
        },
        ExprV::ListCall { col, ln, param, .. } => {
            lemma_at_covers(t, u, ln, col);
            lemma_expr_covers(t, u, *param);
        },
        ExprV::Arithmetic { col, ln, a, b, .. } => {
            lemma_at_covers(t, u, ln, col);
            lemma_expr_covers(t, u, *a);
            lemma_expr_covers(t, u, *b);
        },
    }
}

proof fn lemma_block_covers(t: Seq<TokenV>, u: Seq<TokenV>, b: BlockV)
    requires
        covers(t, u),
        block_placed(u, b),
    ensures
        block_placed(t, b),
    decreases b,
{
    match b {
        BlockV::VariableSet { col, ln, value, .. } => {
            lemma_at_covers(t, u, ln, col);
            lemma_expr_covers(t, u, value);
        },
        BlockV::VariableInit { col, ln, value, .. } => {
            lemma_at_covers(t, u, ln, col);
            match value {
                InitV::Expression(e) => lemma_expr_covers(t, u, e),
                InitV::MatrixInit { col, ln, width, height } => {
                    lemma_at_covers(t, u, ln, col);
                    lemma_expr_covers(t, u, width);
                    lemma_expr_covers(t, u, height);
                },
                InitV::ListInit { col, ln, length } => {
                    lemma_at_covers(t, u, ln, col);
                    lemma_expr_covers(t, u, length);
                },
            }
        },
        BlockV::Expression(e) => lemma_expr_covers(t, u, e),
        BlockV::While { col, ln, eval, blocks } => {
            lemma_at_covers(t, u, ln, col);
            lemma_expr_covers(t, u, eval);
            assert forall|i: int| 0 <= i < blocks.len() implies block_placed(
                t,
                #[trigger] blocks[i],
            ) by {
                lemma_block_covers(t, u, blocks[i]);
            }
        },
        BlockV::Return { col, ln, eval } => {
            lemma_at_covers(t, u, ln, col);
            if let Some(e) = eval {
                lemma_expr_covers(t, u, e);
            }
        },
        BlockV::If { col, ln, eval, blocks } => {
            lemma_at_covers(t, u, ln, col);
            lemma_expr_covers(t, u, eval);
            assert forall|i: int| 0 <= i < blocks.len() implies block_placed(
                t,
                #[trigger] blocks[i],
            ) by {
                lemma_block_covers(t, u, blocks[i]);
            }
        },
    }
}

proof fn lemma_at(t: Seq<TokenV>, k: int)
    requires
        0 <= k < t.len(),
    ensures
        at_token(t, t[k].ln, t[k].col),
{
}

proof fn lemma_points_sub(t: Seq<TokenV>, a: int, b: int, e: ParsingError)
    requires
        0 <= a <= b <= t.len(),
        points_into(t.subrange(a, b), e),
    ensures
        points_into(t, e),
{
    if at_token(t.subrange(a, b), e.ln, e.col) {
        lemma_covers_sub(t, a, b);
        lemma_at_covers(t, t.subrange(a, b), e.ln, e.col);
    }
}

proof fn lemma_outcome_sub<T>(t: Seq<TokenV>, a: int, b: int, r: Option<Result<T, ParsingError>>)
    requires
        0 <= a <= b <= t.len(),
        outcome_points_into(t.subrange(a, b), r),
    ensures
        outcome_points_into(t, r),
{
    if let Some(Err(e)) = r {
        lemma_points_sub(t, a, b, e);
    }
}

/// An outcome whose error points into `t` and whose expression stands at
/// tokens of `t`.
pub open spec fn expr_outcome_placed(t: Seq<TokenV>, r: Option<Result<ExprV, ParsingError>>) -> bool {
    outcome_points_into(t, r) && (r matches Some(Ok(x)) ==> expr_placed(t, x))
}

/// An outcome whose error points into `t` and whose expressions stand at
/// tokens of `t`.
pub open spec fn exprs_outcome_placed(
    t: Seq<TokenV>,
    r: Option<Result<Seq<ExprV>, ParsingError>>,
) -> bool {
    outcome_points_into(t, r) && (r matches Some(Ok(xs)) ==> exprs_placed(t, xs))
}

/// An outcome whose error points into `t` and whose value stands at tokens
/// of `t`.
pub open spec fn init_outcome_placed(t: Seq<TokenV>, r: Option<Result<InitV, ParsingError>>) -> bool {
    outcome_points_into(t, r) && (r matches Some(Ok(v)) ==> init_placed(t, v))
}

/// An outcome whose error points into `t` and whose block stands at tokens
/// of `t`.
pub open spec fn block_outcome_placed(t: Seq<TokenV>, r: Option<Result<BlockV, ParsingError>>) -> bool {
    outcome_points_into(t, r) && (r matches Some(Ok(b)) ==> block_placed(t, b))
}

/// An outcome whose error points into `t` and whose blocks stand at tokens
/// of `t`.
pub open spec fn blocks_outcome_placed(
    t: Seq<TokenV>,
    r: Option<Result<Seq<BlockV>, ParsingError>>,
) -> bool {
    outcome_points_into(t, r) && (r matches Some(Ok(bs)) ==> blocks_placed(t, bs))
}

/// An outcome whose error points into `t` and whose top-level blocks stand
/// at tokens of `t`.
pub open spec fn globals_outcome_placed(
    t: Seq<TokenV>,
    r: Option<Result<Seq<GlobalBlockV>, ParsingError>>,
) -> bool {
    outcome_points_into(t, r) && (r matches Some(Ok(gs)) ==> forall|i: int|
        0 <= i < gs.len() ==> global_placed(t, #[trigger] gs[i]))
}

proof fn lemma_expr_outcome_sub(
    t: Seq<TokenV>,
    a: int,
    b: int,
    r: Option<Result<ExprV, ParsingError>>,
)
    requires
        0 <= a <= b <= t.len(),
        expr_outcome_placed(t.subrange(a, b), r),
    ensures
        expr_outcome_placed(t, r),
{
    lemma_outcome_sub(t, a, b, r);
    lemma_covers_sub(t, a, b);
    if let Some(Ok(x)) = r {
        lemma_expr_covers(t, t.subrange(a, b), x);
    }
}

proof fn lemma_exprs_outcome_sub(
    t: Seq<TokenV>,
    a: int,
    b: int,
    r: Option<Result<Seq<ExprV>, ParsingError>>,
)
    requires
        0 <= a <= b <= t.len(),
        exprs_outcome_placed(t.subrange(a, b), r),
    ensures
        exprs_outcome_placed(t, r),
{
    lemma_outcome_sub(t, a, b, r);
    lemma_covers_sub(t, a, b);
    if let Some(Ok(xs)) = r {
        assert forall|i: int| 0 <= i < xs.len() implies expr_placed(t, #[trigger] xs[i]) by {
            lemma_expr_covers(t, t.subrange(a, b), xs[i]);
        }
    }
}

proof fn lemma_init_outcome_sub(
    t: Seq<TokenV>,
    a: int,
    b: int,
    r: Option<Result<InitV, ParsingError>>,
)
    requires
        0 <= a <= b <= t.len(),
        init_outcome_placed(t.subrange(a, b), r),
    ensures
        init_outcome_placed(t, r),
{
    lemma_outcome_sub(t, a, b, r);
    lemma_covers_sub(t, a, b);
    if let Some(Ok(v)) = r {
        let u = t.subrange(a, b);
        match v {
            InitV::Expression(e) => lemma_expr_covers(t, u, e),
            InitV::MatrixInit { col, ln, width, height } => {
                lemma_at_covers(t, u, ln, col);
                lemma_expr_covers(t, u, width);
                lemma_expr_covers(t, u, height);
            },
            InitV::ListInit { col, ln, length } => {
                lemma_at_covers(t, u, ln, col);
                lemma_expr_covers(t, u, length);
            },
        }
    }
}

proof fn lemma_block_outcome_sub(
    t: Seq<TokenV>,
    a: int,
    b: int,
    r: Option<Result<BlockV, ParsingError>>,
)
    requires
        0 <= a <= b <= t.len(),
        block_outcome_placed(t.subrange(a, b), r),
    ensures
        block_outcome_placed(t, r),
{
    lemma_outcome_sub(t, a, b, r);
    lemma_covers_sub(t, a, b);
    if let Some(Ok(x)) = r {
        lemma_block_covers(t, t.subrange(a, b), x);
    }
}

proof fn lemma_blocks_outcome_sub(
    t: Seq<TokenV>,
    a: int,
    b: int,
    r: Option<Result<Seq<BlockV>, ParsingError>>,
)
    requires
        0 <= a <= b <= t.len(),
        blocks_outcome_placed(t.subrange(a, b), r),
    ensures
        blocks_outcome_placed(t, r),
{
    lemma_outcome_sub(t, a, b, r);
    lemma_covers_sub(t, a, b);
    if let Some(Ok(bs)) = r {
        assert forall|i: int| 0 <= i < bs.len() implies block_placed(t, #[trigger] bs[i]) by {
            lemma_block_covers(t, t.subrange(a, b), bs[i]);
        }
    }
}

/// Every element of `c` stands at tokens of `t`: an operator at the line
/// and column of a token, an operand with everything inside it.
pub open spec fn ops_placed(t: Seq<TokenV>, c: Seq<InterV>) -> bool {
    forall|i: int| 0 <= i < c.len() ==> match #[trigger] c[i] {
        InterV::Op(o) => at_token(t, o.ln, o.col),
        InterV::Expr(x) => expr_placed(t, x),
    }
}

proof fn lemma_ops_sub(t: Seq<TokenV>, c: Seq<InterV>, a: int, b: int)
    requires
        ops_placed(t, c),
        0 <= a <= b <= c.len(),
    ensures
        ops_placed(t, c.subrange(a, b)),
{
    let s = c.subrange(a, b);
    assert forall|i: int| 0 <= i < s.len() implies match #[trigger] s[i] {
        InterV::Op(o) => at_token(t, o.ln, o.col),
        InterV::Expr(x) => expr_placed(t, x),
    } by {
        assert(s[i] == c[a + i]);
    }
}

proof fn lemma_ops_fold(t: Seq<TokenV>, c: Seq<InterV>, i: int, e: ExprV)
    requires
        ops_placed(t, c),
        expr_placed(t, e),
        0 <= i,
        i + 2 <= c.len(),
    ensures
        ops_placed(t, fold_prefix(c, i, e)),
{
    let f = fold_prefix(c, i, e);
    assert forall|j: int| 0 <= j < f.len() implies match #[trigger] f[j] {
        InterV::Op(o) => at_token(t, o.ln, o.col),
        InterV::Expr(x) => expr_placed(t, x),
    } by {
        if j < i {
            assert(f[j] == c[j]);
        } else if j > i {
            assert(f[j] == c[j + 1]);
        }
    }
}

proof fn lemma_ops_push(t: Seq<TokenV>, c: Seq<InterV>, x: InterV)
    requires
        ops_placed(t, c),
        match x {
            InterV::Op(o) => at_token(t, o.ln, o.col),
            InterV::Expr(e) => expr_placed(t, e),
        },
    ensures
        ops_placed(t, c.push(x)),
{
    let d = c.push(x);
    assert forall|j: int| 0 <= j < d.len() implies match #[trigger] d[j] {
        InterV::Op(o) => at_token(t, o.ln, o.col),
        InterV::Expr(e) => expr_placed(t, e),
    } by {
        if j < c.len() {
            assert(d[j] == c[j]);
        }
    }
}

proof fn lemma_combo(t: Seq<TokenV>, c: Seq<InterV>)
    requires
        ops_placed(t, c),
    ensures
        expr_outcome_placed(t, spec_combo(c)),
    decreases c.len(), 7nat, 0nat,
{
    if c.len() == 1 {
        assert(match c[0] {
            InterV::Op(o) => at_token(t, o.ln, o.col),
            InterV::Expr(x) => expr_placed(t, x),
        });
    } else if c.len() > 1 {
        lemma_combo_pass(t, c, 0, c.len());
    }
}

proof fn lemma_combo_pass(t: Seq<TokenV>, c: Seq<InterV>, p: nat, k: nat)
    requires
        ops_placed(t, c),
    ensures
        expr_outcome_placed(t, combo_pass(c, p, k)),
    decreases c.len(), (6 - p) as nat, k,
{
    if p >= 6 {
    } else if k == 0 || k > c.len() {
        lemma_combo_pass(t, c, p + 1, c.len());
    } else {
        let i = k - 1;
        match c[i] {
            InterV::Expr(_) => {
                lemma_combo_pass(t, c, p, (k - 1) as nat);
            },
            InterV::Op(op) => {
                assert(at_token(t, op.ln, op.col));
                if edge_error(c, i, op) is None && in_pass(p as int, op.operator) {
                    if op.operator == ArithmeticOperators::Not && i + 1 < c.len() {
                        if let InterV::Expr(v) = c[i + 1] {
                            assert(expr_placed(t, v));
                            let e = ExprV::Not { col: op.col, ln: op.ln, val: Box::new(v) };
                            lemma_ops_fold(t, c, i, e);
                            lemma_combo(t, fold_prefix(c, i, e));
                        }
                    } else if op.operator == ArithmeticOperators::Subtraction && (i == 0 || is_op(
                        c[i - 1],
                    )) && i + 1 < c.len() {
                        if let InterV::Expr(v) = c[i + 1] {
                            assert(expr_placed(t, v));
                            let e = ExprV::Negate { col: op.col, ln: op.ln, val: Box::new(v) };
                            lemma_ops_fold(t, c, i, e);
                            lemma_combo(t, fold_prefix(c, i, e));
                        }
                    } else if 0 < i && i + 1 < c.len() {
                        lemma_ops_sub(t, c, 0, i);
                        lemma_ops_sub(t, c, i + 1, c.len() as int);
                        lemma_combo(t, c.subrange(0, i));
                        lemma_combo(t, c.subrange(i + 1, c.len() as int));
                    }
                } else if edge_error(c, i, op) is None {
                    lemma_combo_pass(t, c, p, (k - 1) as nat);
                }
            },
        }
    }
}

proof fn lemma_push_built(t: Seq<TokenV>, got: Option<Result<ExprV, ParsingError>>, st: ScanState)
    requires
        ops_placed(t, st.combo),
        expr_outcome_placed(t, got),
    ensures
        push_built(got, st) matches Some(Ok(s2)) ==> ops_placed(t, s2.combo),
        outcome_points_into(t, push_built(got, st)),
{
    if let Some(Ok(x)) = got {
        lemma_ops_push(t, st.combo, InterV::Expr(x));
    }
}

proof fn lemma_scan_step(t: Seq<TokenV>, i: int, st: ScanState)
    requires
        ops_placed(t, st.combo),
    ensures
        scan_step(t, i, st) matches Some(Ok(s2)) ==> ops_placed(t, s2.combo),
        outcome_points_into(t, scan_step(t, i, st)),
    decreases t.len(), 1nat, 0nat,
{
    if i < 0 || i >= t.len() {
        return;
    }
    let tok = t[i];
    lemma_at(t, i);
    if tok.key == TokenKey::Keyword && i != t.len() - 1 && (t[i + 1].key
        == TokenKey::ParentheseLeft || t[i + 1].key == TokenKey::BracketLeft || t[i + 1].key
        == TokenKey::DoubleColon) {
    } else if tok.key == TokenKey::DoubleColon && !st.p_eval && !st.b_eval {
    } else if tok.key == TokenKey::BracketLeft && !st.p_eval {
    } else if tok.key == TokenKey::BracketRight && !st.p_eval {
        if st.b_eval && st.b_count == 1 && !(st.b_start < 1 || st.b_start >= i) {
            let u = t.subrange(st.b_start + 1 as int, i);
            let name = qualified_name(t, st.b_start - 1);
            let got = spec_bracket_call(name, u);
            lemma_bracket_call(name, u);
            lemma_expr_outcome_sub(t, st.b_start + 1 as int, i, got);
            lemma_push_built(t, got, ScanState { b_eval: false, b_count: 0, ..st });
        }
    } else if tok.key == TokenKey::ParentheseLeft && !st.b_eval {
    } else if tok.key == TokenKey::ParentheseRight && !st.b_eval {
        if st.p_eval && st.p_count == 1 && st.p_start < i {
            let inner = t.subrange(st.p_start + 1 as int, i);
            let next = ScanState { p_eval: false, p_count: 0, ..st };
            if st.p_func {
                if st.p_start >= 1 {
                    let f = t[st.p_start - 1];
                    lemma_at(t, st.p_start - 1);
                    if let Some(name) = qualified_name(t, st.p_start - 1) {
                        lemma_func_args(inner);
                        lemma_exprs_outcome_sub(t, st.p_start + 1 as int, i, spec_func_args(inner));
                        if let Some(Ok(ps)) = spec_func_args(inner) {
                            lemma_push_built(
                                t,
                                Some(
                                    Ok(ExprV::FunctionCall { col: f.col, ln: f.ln, params: ps, name }),
                                ),
                                next,
                            );
                        }
                    }
                }
            } else {
                lemma_eval(inner);
                lemma_expr_outcome_sub(t, st.p_start + 1 as int, i, spec_eval(inner));
                lemma_push_built(t, spec_eval(inner), next);
            }
        }
    } else if !st.p_eval && !st.b_eval {
        if let Some(Ok(x)) = spec_operand(t, i) {
            lemma_ops_push(t, st.combo, x);
        }
    }
}

proof fn lemma_scan(t: Seq<TokenV>, n: nat)
    ensures
        scan(t, n) matches Some(Ok(st)) ==> ops_placed(t, st.combo),
        outcome_points_into(t, scan(t, n)),
    decreases t.len(), 2nat, n,
{
    if n == 0 || n > t.len() {
        assert(ops_placed(t, scan_start().combo));
    } else {
        lemma_scan(t, (n - 1) as nat);
        if let Some(Ok(st)) = scan(t, (n - 1) as nat) {
            lemma_scan_step(t, n - 1, st);
        }
    }
}

/// An expression that the parser refuses is refused at one of its tokens,
/// or with the one error that has no position; one that it builds stands,
/// with everything inside it, at its tokens.
pub proof fn lemma_eval(t: Seq<TokenV>)
    ensures
        expr_outcome_placed(t, spec_eval(t)),
    decreases t.len(), 3nat, 0nat,
{
    if t.len() == 1 {
        lemma_at(t, 0);
    } else {
        lemma_scan(t, t.len());
        if let Some(Ok(st)) = scan(t, t.len()) {
            lemma_combo(t, st.combo);
        }
    }
}

proof fn lemma_bracket_call(name: Option<Seq<char>>, t: Seq<TokenV>)
    ensures
        expr_outcome_placed(t, spec_bracket_call(name, t)),
    decreases t.len(), 4nat, 0nat,
{
    lemma_bracket_split(t, 0, 0, 0);
    if t.len() > 0 {
        lemma_at(t, 0);
    }
    match bracket_split(t, 0, 0, 0) {
        BracketSplit::Comma(i) => {
            if 0 <= i < t.len() {
                lemma_eval(t.subrange(0, i));
                lemma_expr_outcome_sub(t, 0, i, spec_eval(t.subrange(0, i)));
                lemma_eval(t.subrange(i + 1, t.len() as int));
                lemma_expr_outcome_sub(
                    t,
                    i + 1,
                    t.len() as int,
                    spec_eval(t.subrange(i + 1, t.len() as int)),
                );
            }
        },
        BracketSplit::Unbalanced => {},
        BracketSplit::NoComma => {
            if t.len() > 0 {
                lemma_eval(t);
            }
        },
    }
}

/// The state of a pass over call arguments holds only arguments that stand
/// at tokens of `t`.
pub open spec fn args_placed(t: Seq<TokenV>, r: Option<Result<ArgsState, ParsingError>>) -> bool {
    outcome_points_into(t, r) && (r matches Some(Ok(st)) ==> exprs_placed(t, st.params))
}

proof fn lemma_args_step(t: Seq<TokenV>, i: int, st: ArgsState)
    requires
        exprs_placed(t, st.params),
    ensures
        args_placed(t, args_step(t, i, st)),
    decreases t.len(), 4nat, 0nat,
{
    if i < 0 || i >= t.len() || st.comma > i {
        return;
    }
    lemma_at(t, 0);
    if t[i].key == TokenKey::Comma && st.p == 0 && st.b == 0 {
        let u = t.subrange(st.comma as int, i);
        lemma_eval(u);
        lemma_expr_outcome_sub(t, st.comma as int, i, spec_eval(u));
        if let Some(Ok(x)) = spec_eval(u) {
            let ps = st.params.push(x);
            assert forall|j: int| 0 <= j < ps.len() implies expr_placed(t, #[trigger] ps[j]) by {
                if j < st.params.len() {
                    assert(ps[j] == st.params[j]);
                }
            }
        }
    }
}

proof fn lemma_args_scan(t: Seq<TokenV>, n: nat)
    ensures
        args_placed(t, args_scan(t, n)),
    decreases t.len(), 5nat, n,
{
    if n != 0 && n <= t.len() {
        lemma_args_scan(t, (n - 1) as nat);
        if let Some(Ok(st)) = args_scan(t, (n - 1) as nat) {
            lemma_args_step(t, n - 1, st);
        }
    }
}

proof fn lemma_func_args(t: Seq<TokenV>)
    ensures
        exprs_outcome_placed(t, spec_func_args(t)),
    decreases t.len(), 6nat, 0nat,
{
    if t.len() > 0 {
        lemma_args_scan(t, t.len());
        if let Some(Ok(st)) = args_scan(t, t.len()) {
            if st.comma <= t.len() {
                let u = t.subrange(st.comma as int, t.len() as int);
                lemma_eval(u);
                lemma_expr_outcome_sub(t, st.comma as int, t.len() as int, spec_eval(u));
                if let Some(Ok(x)) = spec_eval(u) {
                    let ps = st.params.push(x);
                    assert forall|j: int| 0 <= j < ps.len() implies expr_placed(
                        t,
                        #[trigger] ps[j],
                    ) by {
                        if j < st.params.len() {
                            assert(ps[j] == st.params[j]);
                        }
                    }
                }
            }
        }
    }
}


proof fn lemma_list_init(t: Seq<TokenV>)
    ensures
        init_outcome_placed(t, spec_list_init(t)),
{
    if t.len() > 0 {
        lemma_at(t, 0);
        lemma_at(t, t.len() - 1);
        if t.len() >= 2 {
            let u = t.subrange(1, t.len() - 1);
            lemma_eval(u);
            lemma_expr_outcome_sub(t, 1, t.len() - 1, spec_eval(u));
        }
    }
}

proof fn lemma_matrix_init(t: Seq<TokenV>)
    ensures
        init_outcome_placed(t, spec_matrix_init(t)),
{
    if t.len() > 0 {
        lemma_at(t, 0);
        lemma_at(t, t.len() - 1);
        lemma_bracket_split(t, 1, 0, 0);
        if let BracketSplit::Comma(i) = bracket_split(t, 1, 0, 0) {
            if 1 <= i && i + 1 <= t.len() - 1 {
                let w = t.subrange(1, i);
                let h = t.subrange(i + 1, t.len() - 1);
                lemma_eval(w);
                lemma_expr_outcome_sub(t, 1, i, spec_eval(w));
                lemma_eval(h);
                lemma_expr_outcome_sub(t, i + 1, t.len() - 1, spec_eval(h));
            }
        }
    }
}

proof fn lemma_first_misplaced(t: Seq<TokenV>, first: TokenKey, i: int)
    ensures
        first_misplaced(t, first, i) matches Some(j) ==> 0 <= j < t.len(),
    decreases 5 - i,
{
    if 0 <= i < 5 && i < t.len() {
        lemma_first_misplaced(t, first, i + 1);
    }
}

proof fn lemma_variable_init(t: Seq<TokenV>)
    ensures
        block_outcome_placed(t, spec_variable_init(t)),
{
    if t.len() >= 6 {
        lemma_at(t, 0);
        lemma_at(t, 3);
        lemma_first_misplaced(t, TokenKey::Variable, 0);
        if let Some(i) = first_misplaced(t, TokenKey::Variable, 0) {
            lemma_at(t, i);
        }
        let set = t.subrange(5, t.len() - 1);
        lemma_matrix_init(set);
        lemma_init_outcome_sub(t, 5, t.len() - 1, spec_matrix_init(set));
        lemma_list_init(set);
        lemma_init_outcome_sub(t, 5, t.len() - 1, spec_list_init(set));
        lemma_eval(set);
        lemma_expr_outcome_sub(t, 5, t.len() - 1, spec_eval(set));
    } else if t.len() > 0 {
        lemma_at(t, 0);
    }
}

proof fn lemma_return(t: Seq<TokenV>)
    ensures
        block_outcome_placed(t, spec_return(t)),
{
    if t.len() >= 2 {
        lemma_at(t, 0);
    }
    if t.len() > 2 {
        let u = t.subrange(1, t.len() - 1);
        lemma_eval(u);
        lemma_expr_outcome_sub(t, 1, t.len() - 1, spec_eval(u));
    }
}

proof fn lemma_guarded(t: Seq<TokenV>, is_while: bool)
    ensures
        block_outcome_placed(t, spec_guarded(t, is_while)),
    decreases t.len(), 2nat, 0nat,
{
    if t.len() == 0 {
        return;
    }
    lemma_at(t, 0);
    lemma_first_key(t, TokenKey::CurlyBraceLeft, 0);
    if let Some(j) = first_key(t, TokenKey::CurlyBraceLeft, 0) {
        if 1 <= j < t.len() {
            let cond = t.subrange(1, j);
            lemma_eval(cond);
            lemma_expr_outcome_sub(t, 1, j, spec_eval(cond));
            lemma_closing_brace(t, j + 1, 1);
            if let Some(e) = closing_brace(t, j + 1, 1) {
                if j < e < t.len() {
                    let body = t.subrange(j + 1, e);
                    lemma_blocks_from(body, 0);
                    lemma_blocks_outcome_sub(t, j + 1, e, blocks_from(body, 0));
                }
            }
        }
    }
}

proof fn lemma_cons_block(
    t: Seq<TokenV>,
    b: Option<Result<BlockV, ParsingError>>,
    rest: Option<Result<Seq<BlockV>, ParsingError>>,
)
    requires
        block_outcome_placed(t, b),
        blocks_outcome_placed(t, rest),
    ensures
        blocks_outcome_placed(t, cons_block(b, rest)),
{
    if let Some(Ok(x)) = b {
        if let Some(Ok(r)) = rest {
            let bs = seq![x] + r;
            assert forall|i: int| 0 <= i < bs.len() implies block_placed(t, #[trigger] bs[i]) by {
                if i > 0 {
                    assert(bs[i] == r[i - 1]);
                }
            }
        }
    }
}

proof fn lemma_blocks_from(t: Seq<TokenV>, i: int)
    ensures
        blocks_outcome_placed(t, blocks_from(t, i)),
    decreases t.len(), 3nat, t.len() - i,
{
    if i < 0 || i >= t.len() {
        return;
    }
    let tok = t[i];
    lemma_at(t, i);
    lemma_first_key(t, TokenKey::SemiColon, i);
    let semi = first_key(t, TokenKey::SemiColon, i);
    if tok.key == TokenKey::Variable && semi is Some {
        let s = semi.unwrap();
        let u = t.subrange(i, s + 1);
        lemma_variable_init(u);
        lemma_block_outcome_sub(t, i, s + 1, spec_variable_init(u));
        lemma_blocks_from(t, s + 1);
        lemma_cons_block(t, spec_variable_init(u), blocks_from(t, s + 1));
    } else if tok.key == TokenKey::Return && semi is Some {
        let s = semi.unwrap();
        let u = t.subrange(i, s + 1);
        lemma_return(u);
        lemma_block_outcome_sub(t, i, s + 1, spec_return(u));
        lemma_blocks_from(t, s + 1);
        lemma_cons_block(t, spec_return(u), blocks_from(t, s + 1));
    } else if tok.key == TokenKey::While || tok.key == TokenKey::If {
        let is_while = tok.key == TokenKey::While;
        lemma_first_key(t, TokenKey::CurlyBraceLeft, i);
        if let Some(cs) = first_key(t, TokenKey::CurlyBraceLeft, i) {
            lemma_closing_brace(t, cs + 1, 1);
            if let Some(ce) = closing_brace(t, cs + 1, 1) {
                let u = t.subrange(i, ce + 1);
                lemma_guarded(u, is_while);
                lemma_block_outcome_sub(t, i, ce + 1, spec_guarded(u, is_while));
                lemma_blocks_from(t, ce + 1);
                lemma_cons_block(t, spec_guarded(u, is_while), blocks_from(t, ce + 1));
            }
        }
    } else if let Some(s) = semi {
        let u = t.subrange(i, s);
        lemma_eval(u);
        lemma_expr_outcome_sub(t, i, s, spec_eval(u));
        lemma_blocks_from(t, s + 1);
        let b = match spec_eval(u) {
            Some(Ok(x)) => Some(Ok(BlockV::Expression(x))),
            Some(Err(e)) => Some(Err(e)),
            None => None,
        };
        lemma_cons_block(t, b, blocks_from(t, s + 1));
    }
}

/// A function's outcome: its error points into `t`, and the function
/// stands, with everything inside it, at tokens of `t`.
pub open spec fn function_outcome_placed(
    t: Seq<TokenV>,
    r: Option<Result<FunctionV, ParsingError>>,
) -> bool {
    outcome_points_into(t, r) && (r matches Some(Ok(f)) ==> global_placed(
        t,
        GlobalBlockV::Function(f),
    ))
}

proof fn lemma_func_eval(t: Seq<TokenV>, exp: bool)
    ensures
        function_outcome_placed(t, spec_func_eval(t, exp)),
{
    if t.len() >= 2 {
        lemma_at(t, 0);
        lemma_at(t, 1);
        lemma_first_key(t, TokenKey::CurlyBraceLeft, 2);
        if let Some(k) = first_key(t, TokenKey::CurlyBraceLeft, 2) {
            if 2 <= k && k + 1 <= t.len() - 1 {
                let body = t.subrange(k + 1, t.len() - 1);
                lemma_blocks_from(body, 0);
                lemma_blocks_outcome_sub(t, k + 1, t.len() - 1, spec_blocks(body));
            }
        }
    } else if t.len() == 1 {
        lemma_at(t, 0);
    }
}

proof fn lemma_import_eval(t: Seq<TokenV>)
    ensures
        outcome_points_into(t, spec_import_eval(t)),
        spec_import_eval(t) matches Some(Ok(i)) ==> at_token(t, i.ln, i.col),
{
    if t.len() > 0 {
        lemma_at(t, 0);
    }
    if t.len() == 5 {
        lemma_at(t, 1);
        lemma_at(t, 2);
        let u = t.subrange(3, 4);
        lemma_eval(u);
        lemma_outcome_sub(t, 3, 4, spec_eval(u));
    }
}

proof fn lemma_constant_eval(t: Seq<TokenV>, exp: bool)
    ensures
        outcome_points_into(t, spec_constant_eval(t, exp)),
        spec_constant_eval(t, exp) matches Some(Ok(c)) ==> global_placed(
            t,
            GlobalBlockV::ConstantInit(c),
        ),
{
    if t.len() > 0 {
        lemma_at(t, 0);
    }
    if t.len() >= 6 {
        lemma_at(t, 3);
        lemma_first_misplaced(t, TokenKey::Constant, 0);
        if let Some(i) = first_misplaced(t, TokenKey::Constant, 0) {
            lemma_at(t, i);
        }
        let u = t.subrange(5, t.len() - 1);
        lemma_eval(u);
        lemma_expr_outcome_sub(t, 5, t.len() - 1, spec_eval(u));
    }
}

proof fn lemma_cons_global(
    t: Seq<TokenV>,
    g: Option<Result<GlobalBlockV, ParsingError>>,
    rest: Option<Result<Seq<GlobalBlockV>, ParsingError>>,
)
    requires
        outcome_points_into(t, g),
        g matches Some(Ok(x)) ==> global_placed(t, x),
        globals_outcome_placed(t, rest),
    ensures
        globals_outcome_placed(t, cons_global(g, rest)),
{
    if let Some(Ok(x)) = g {
        if let Some(Ok(r)) = rest {
            let gs = seq![x] + r;
            assert forall|i: int| 0 <= i < gs.len() implies global_placed(t, #[trigger] gs[i]) by {
                if i > 0 {
                    assert(gs[i] == r[i - 1]);
                }
            }
        }
    }
}

proof fn lemma_top_from(t: Seq<TokenV>, i: int, is_exp: bool)
    ensures
        globals_outcome_placed(t, top_from(t, i, is_exp)),
    decreases t.len() - i,
{
    if i < 0 || i >= t.len() {
        return;
    }
    let tok = t[i];
    lemma_at(t, i);
    lemma_first_key(t, TokenKey::CurlyBraceLeft, i);
    lemma_first_key(t, TokenKey::SemiColon, i);
    if tok.key == TokenKey::Function {
        if let Some(cs) = first_key(t, TokenKey::CurlyBraceLeft, i) {
            lemma_closing_brace(t, cs + 1, 1);
            if let Some(ce) = closing_brace(t, cs + 1, 1) {
                let u = t.subrange(i, ce + 1);
                lemma_func_eval(u, is_exp);
                lemma_outcome_sub(t, i, ce + 1, spec_func_eval(u, is_exp));
                lemma_covers_sub(t, i, ce + 1);
                if let Some(Ok(f)) = spec_func_eval(u, is_exp) {
                    lemma_at_covers(t, u, f.ln, f.col);
                    assert forall|j: int| 0 <= j < f.blocks.len() implies block_placed(
                        t,
                        #[trigger] f.blocks[j],
                    ) by {
                        lemma_block_covers(t, u, f.blocks[j]);
                    }
                }
                lemma_top_from(t, ce + 1, false);
                lemma_cons_global(
                    t,
                    as_function(spec_func_eval(u, is_exp)),
                    top_from(t, ce + 1, false),
                );
            }
        }
    } else if tok.key == TokenKey::Constant {
        if let Some(s) = first_key(t, TokenKey::SemiColon, i) {
            let u = t.subrange(i, s + 1);
            lemma_constant_eval(u, is_exp);
            lemma_outcome_sub(t, i, s + 1, spec_constant_eval(u, is_exp));
            lemma_covers_sub(t, i, s + 1);
            if let Some(Ok(c)) = spec_constant_eval(u, is_exp) {
                lemma_at_covers(t, u, c.ln, c.col);
                lemma_expr_covers(t, u, c.value);
            }
            lemma_top_from(t, s + 1, false);
            lemma_cons_global(
                t,
                as_constant(spec_constant_eval(u, is_exp)),
                top_from(t, s + 1, false),
            );
        }
    } else if tok.key == TokenKey::Import {
        if !is_exp {
            if let Some(s) = first_key(t, TokenKey::SemiColon, i) {
                let u = t.subrange(i, s + 1);
                lemma_import_eval(u);
                lemma_outcome_sub(t, i, s + 1, spec_import_eval(u));
                lemma_covers_sub(t, i, s + 1);
                if let Some(Ok(imp)) = spec_import_eval(u) {
                    lemma_at_covers(t, u, imp.ln, imp.col);
                }
                lemma_top_from(t, s + 1, is_exp);
                lemma_cons_global(t, as_import(spec_import_eval(u)), top_from(t, s + 1, is_exp));
            }
        }
    } else if tok.key == TokenKey::Export {
        if !is_exp {
            lemma_top_from(t, i + 1, true);
        }
    }
}

/// A program that the parser refuses is refused at the line and column of
/// one of its tokens; the one exception is the error `any` at line 0,
/// column 0, given to operands that no operator joins.
pub proof fn law_refusals_point_into_program(t: Seq<TokenV>)
    ensures
        spec_grammar(t) matches Some(Err(e)) ==> at_token(t, e.ln, e.col) || unplaced(e),
{
    lemma_top_from(t, 0, false);
}

/// Every node of the tree that the parser builds for a program (each
/// top-level block, block, value and expression, down to the operands)
/// stands at the line and column of one of the program's tokens.
pub proof fn law_tree_stands_at_tokens(t: Seq<TokenV>)
    ensures
        spec_grammar(t) matches Some(Ok(gs)) ==> forall|i: int|
            0 <= i < gs.len() ==> global_placed(t, #[trigger] gs[i]),
{
    lemma_top_from(t, 0, false);
}

} // verus!
