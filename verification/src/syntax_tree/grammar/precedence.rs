use vstd::prelude::*;

use crate::syntax_tree::syntax::{ArithmeticOperator, ArithmeticOperators, ExprV, ParsingError};
use crate::tokenize::{TokenKey, TokenV};
use super::expression::{
    bracket_split, combo_pass, edge_error, in_pass, is_op, spec_bracket_call, spec_combo,
    spec_eval, BracketSplit, InterV,
};

verus! {

/// The element is an operator of class `p` (0: assignments, 1: `&&` and
/// `||`, 2: comparisons, 3: `+` and `-`, 4: `*` and `/`).
pub open spec fn op_in_class(x: InterV, p: int) -> bool {
    match x {
        InterV::Op(o) => in_pass(p, o.operator),
        InterV::Expr(_) => false,
    }
}

/// An expression made of `a` and `b` joined by the operator at `i`: the
/// left side's error comes first, then the right side's.
pub open spec fn joined(
    c: Seq<InterV>,
    i: int,
    a: Option<Result<ExprV, ParsingError>>,
    b: Option<Result<ExprV, ParsingError>>,
) -> Option<Result<ExprV, ParsingError>> {
    match c[i] {
        InterV::Op(op) => match a {
            Some(Ok(x)) => match b {
                Some(Ok(y)) => Some(
                    Ok(
                        ExprV::Arithmetic {
                            col: op.col,
                            ln: op.ln,
                            operator: op,
                            a: Box::new(x),
                            b: Box::new(y),
                        },
                    ),
                ),
                other => other,
            },
            other => other,
        },
        InterV::Expr(_) => None,
    }
}

proof fn lemma_pass_skip(c: Seq<InterV>, p: nat, k: nat)
    requires
        c.len() >= 2,
        c[0] is Expr,
        c.last() is Expr,
        p < 6,
        k <= c.len(),
        forall|j: int| 0 <= j < k ==> !op_in_class(#[trigger] c[j], p as int),
    ensures
        combo_pass(c, p, k) == combo_pass(c, p + 1, c.len()),
    decreases k,
{
    if k > 0 {
        let i = k - 1;
        assert(!op_in_class(c[i], p as int));
        if let InterV::Op(op) = c[i] {
            assert(edge_error(c, i, op) is None);
        }
        lemma_pass_skip(c, p, (k - 1) as nat);
    }
}

proof fn lemma_passes_skip(c: Seq<InterV>, p: nat)
    requires
        c.len() >= 2,
        c[0] is Expr,
        c.last() is Expr,
        p < 6,
        forall|q: int, j: int| 0 <= q < p && 0 <= j < c.len() ==> !#[trigger] op_in_class(c[j], q),
    ensures
        combo_pass(c, 0, c.len()) == combo_pass(c, p, c.len()),
    decreases p,
{
    if p > 0 {
        lemma_passes_skip(c, (p - 1) as nat);
        assert forall|j: int| 0 <= j < c.len() implies !op_in_class(#[trigger] c[j], p - 1) by {}
        lemma_pass_skip(c, (p - 1) as nat, c.len());
    }
}

proof fn lemma_pass_down(c: Seq<InterV>, p: nat, k: nat, i: int)
    requires
        c.len() >= 2,
        c[0] is Expr,
        c.last() is Expr,
        p < 6,
        0 <= i < k <= c.len(),
        forall|j: int| i < j < k ==> !op_in_class(#[trigger] c[j], p as int),
    ensures
        combo_pass(c, p, k) == combo_pass(c, p, (i + 1) as nat),
    decreases k,
{
    if k > i + 1 {
        let j = k - 1;
        assert(!op_in_class(c[j], p as int));
        if let InterV::Op(op) = c[j] {
            assert(edge_error(c, j, op) is None);
        }
        lemma_pass_down(c, p, (k - 1) as nat, i);
    }
}

/// Operator precedence and grouping. In elements that begin and end with an
/// operand, let class `p` be the loosest class holding an operator (see
/// `op_in_class`) and `i` the place of its last operator. Unless that
/// operator is a `-` right after another operator (a negation), the
/// expression is that operator applied to the expressions of the elements
/// before and after it: the loosest class is the root, and operators of one
/// class group to the left.
pub proof fn law_loosest_last_operator_is_root(c: Seq<InterV>, p: int, i: int)
    requires
        c.len() >= 3,
        c[0] is Expr,
        c.last() is Expr,
        0 <= p < 5,
        forall|q: int, j: int| 0 <= q < p && 0 <= j < c.len() ==> !#[trigger] op_in_class(c[j], q),
        0 <= i < c.len(),
        op_in_class(c[i], p),
        forall|j: int| i < j < c.len() ==> !op_in_class(#[trigger] c[j], p),
        c[i]->Op_0.operator == ArithmeticOperators::Subtraction ==> c[i - 1] is Expr,
    ensures
        spec_combo(c) == joined(
            c,
            i,
            spec_combo(c.subrange(0, i)),
            spec_combo(c.subrange(i + 1, c.len() as int)),
        ),
{
    lemma_passes_skip(c, p as nat);
    lemma_pass_down(c, p as nat, c.len(), i);
    let op = c[i]->Op_0;
    assert(0 < i < c.len() - 1);
    assert(edge_error(c, i, op) is None);
    assert(op.operator != ArithmeticOperators::Not);
    assert(!(op.operator == ArithmeticOperators::Subtraction && (i == 0 || is_op(c[i - 1]))));
}

/// How many `(` minus how many `)` stand among the first `j` tokens.
pub open spec fn paren_depth(t: Seq<TokenV>, j: int) -> int
    decreases j,
{
    if j <= 0 || j > t.len() {
        0
    } else {
        paren_depth(t, j - 1) + if t[j - 1].key == TokenKey::ParentheseLeft {
            1int
        } else if t[j - 1].key == TokenKey::ParentheseRight {
            -1int
        } else {
            0int
        }
    }
}

/// How many `[` minus how many `]` stand among the first `j` tokens.
pub open spec fn bracket_depth(t: Seq<TokenV>, j: int) -> int
    decreases j,
{
    if j <= 0 || j > t.len() {
        0
    } else {
        bracket_depth(t, j - 1) + if t[j - 1].key == TokenKey::BracketLeft {
            1int
        } else if t[j - 1].key == TokenKey::BracketRight {
            -1int
        } else {
            0int
        }
    }
}

/// Token `j` is a comma outside any nested group.
pub open spec fn top_comma(t: Seq<TokenV>, j: int) -> bool {
    t[j].key == TokenKey::Comma && paren_depth(t, j) == 0 && bracket_depth(t, j) == 0
}

/// No group is closed before it is opened among the first `n` tokens.
pub open spec fn balanced_upto(t: Seq<TokenV>, n: int) -> bool {
    forall|j: int| 0 <= j <= n ==> paren_depth(t, j) >= 0 && bracket_depth(t, j) >= 0
}

proof fn lemma_split_prefix(t: Seq<TokenV>, j: int)
    requires
        0 <= j <= t.len(),
        balanced_upto(t, j),
        forall|k: int| 0 <= k < j ==> !top_comma(t, k),
    ensures
        bracket_split(t, 0, 0, 0) == bracket_split(
            t,
            j,
            paren_depth(t, j) as nat,
            bracket_depth(t, j) as nat,
        ),
    decreases j,
{
    if j > 0 {
        assert(paren_depth(t, j - 1) >= 0 && bracket_depth(t, j - 1) >= 0);
        lemma_split_prefix(t, j - 1);
        assert(!top_comma(t, j - 1));
    }
}

/// The first comma outside any nested `()` or `[]` splits an access into a
/// matrix access: the tokens before it give the first index, those after it
/// the second. A comma inside a nested group never splits.
pub proof fn law_first_top_comma_splits(name: Option<Seq<char>>, t: Seq<TokenV>, i: int)
    requires
        0 <= i < t.len(),
        top_comma(t, i),
        balanced_upto(t, i),
        forall|k: int| 0 <= k < i ==> !top_comma(t, k),
    ensures
        spec_bracket_call(name, t) == match spec_eval(t.subrange(0, i)) {
            Some(Ok(x)) => match spec_eval(t.subrange(i + 1, t.len() as int)) {
                Some(Ok(y)) => match name {
                    Some(n) => Some(
                        Ok(
                            ExprV::MatrixCall {
                                col: t[0].col,
                                ln: t[0].ln,
                                first: Box::new(x),
                                second: Box::new(y),
                                name: n,
                            },
                        ),
                    ),
                    None => None,
                },
                other => other,
            },
            other => other,
        },
{
    lemma_split_prefix(t, i);
    assert(bracket_split(t, i, 0, 0) == BracketSplit::Comma(i));
}

/// Without a comma outside the nested groups, and with no group closed
/// before it is opened, an access is a list access whose index is the
/// expression of all the tokens.
pub proof fn law_no_top_comma_is_list_access(name: Option<Seq<char>>, t: Seq<TokenV>)
    requires
        t.len() > 0,
        balanced_upto(t, t.len() as int),
        forall|k: int| 0 <= k < t.len() ==> !top_comma(t, k),
    ensures
        spec_bracket_call(name, t) == match spec_eval(t) {
            Some(Ok(x)) => match name {
                Some(n) => Some(
                    Ok(ExprV::ListCall { col: t[0].col, ln: t[0].ln, param: Box::new(x), name: n }),
                ),
                None => None,
            },
            other => other,
        },
{
    lemma_split_prefix(t, t.len() as int);
}


/// How tightly a binary operator binds, from the loosest to the tightest:
/// assignments (`=`, `+=`, `-=`), then `&&` and `||`, then the comparisons
/// (`==`, `!=`, `>`, `>=`, `<`, `<=`), then `+` and `-`, then `*` and `/`.
pub open spec fn binding_rank(o: ArithmeticOperators) -> int {
    match o {
        ArithmeticOperators::Assign => 0,
        ArithmeticOperators::AdditionAssign => 0,
        ArithmeticOperators::SubtractAssign => 0,
        ArithmeticOperators::And => 1,
        ArithmeticOperators::Or => 1,
        ArithmeticOperators::Equals => 2,
        ArithmeticOperators::NotEquals => 2,
        ArithmeticOperators::GreaterThan => 2,
        ArithmeticOperators::GreaterThanOrEquals => 2,
        ArithmeticOperators::LessThan => 2,
        ArithmeticOperators::LessThanOrEquals => 2,
        ArithmeticOperators::Addition => 3,
        ArithmeticOperators::Subtraction => 3,
        ArithmeticOperators::Multiplication => 4,
        ArithmeticOperators::Division => 4,
        ArithmeticOperators::Not => 5,
    }
}

/// The expression `a` applied to two operands.
pub open spec fn apply(o: ArithmeticOperator, x: ExprV, y: ExprV) -> ExprV {
    ExprV::Arithmetic { col: o.col, ln: o.ln, operator: o, a: Box::new(x), b: Box::new(y) }
}

proof fn lemma_rank_is_pass(o: ArithmeticOperators, q: int)
    requires
        o != ArithmeticOperators::Not,
    ensures
        in_pass(q, o) <==> q == binding_rank(o),
{
}

proof fn lemma_one_operator(x: ExprV, o: ArithmeticOperator, y: ExprV)
    requires
        o.operator != ArithmeticOperators::Not,
    ensures
        spec_combo(seq![InterV::Expr(x), InterV::Op(o), InterV::Expr(y)]) == Some(
            Ok::<ExprV, ParsingError>(apply(o, x, y)),
        ),
{
    let c = seq![InterV::Expr(x), InterV::Op(o), InterV::Expr(y)];
    let p = binding_rank(o.operator);
    assert forall|q: int, j: int| 0 <= q < p && 0 <= j < c.len() implies !#[trigger] op_in_class(
        c[j],
        q,
    ) by {
        lemma_rank_is_pass(o.operator, q);
    }
    assert forall|j: int| 1 < j < c.len() implies !#[trigger] op_in_class(c[j], p) by {}
    lemma_rank_is_pass(o.operator, p);
    law_loosest_last_operator_is_root(c, p, 1);
    assert(c.subrange(0, 1) =~= seq![InterV::Expr(x)]);
    assert(c.subrange(2, 3) =~= seq![InterV::Expr(y)]);
}

/// How two binary operators between three operands group, whatever the
/// operands: the looser operator is the root; of two operators that bind
/// alike, the right one is the root, so they group to the left. So
/// `x + y / z` is `x + (y / z)`, `x / y + z` is `(x / y) + z` and
/// `x - y - z` is `(x - y) - z`.
pub proof fn law_two_operators_group_by_binding(
    x: ExprV,
    o1: ArithmeticOperator,
    y: ExprV,
    o2: ArithmeticOperator,
    z: ExprV,
)
    requires
        o1.operator != ArithmeticOperators::Not,
        o2.operator != ArithmeticOperators::Not,
    ensures
        binding_rank(o1.operator) < binding_rank(o2.operator) ==> spec_combo(
            seq![
                InterV::Expr(x),
                InterV::Op(o1),
                InterV::Expr(y),
                InterV::Op(o2),
                InterV::Expr(z),
            ],
        ) == Some(Ok::<ExprV, ParsingError>(apply(o1, x, apply(o2, y, z)))),
        binding_rank(o1.operator) >= binding_rank(o2.operator) ==> spec_combo(
            seq![
                InterV::Expr(x),
                InterV::Op(o1),
                InterV::Expr(y),
                InterV::Op(o2),
                InterV::Expr(z),
            ],
        ) == Some(Ok::<ExprV, ParsingError>(apply(o2, apply(o1, x, y), z))),
{
    let c = seq![InterV::Expr(x), InterV::Op(o1), InterV::Expr(y), InterV::Op(o2), InterV::Expr(z)];
    let r1 = binding_rank(o1.operator);
    let r2 = binding_rank(o2.operator);
    if r1 < r2 {
        assert forall|q: int, j: int| 0 <= q < r1 && 0 <= j < c.len() implies !#[trigger] op_in_class(
            c[j],
            q,
        ) by {
            lemma_rank_is_pass(o1.operator, q);
            lemma_rank_is_pass(o2.operator, q);
        }
        assert forall|j: int| 1 < j < c.len() implies !#[trigger] op_in_class(c[j], r1) by {
            lemma_rank_is_pass(o2.operator, r1);
        }
        lemma_rank_is_pass(o1.operator, r1);
        law_loosest_last_operator_is_root(c, r1, 1);
        assert(c.subrange(0, 1) =~= seq![InterV::Expr(x)]);
        assert(c.subrange(2, 5) =~= seq![InterV::Expr(y), InterV::Op(o2), InterV::Expr(z)]);
        lemma_one_operator(y, o2, z);
    } else {
        assert forall|q: int, j: int| 0 <= q < r2 && 0 <= j < c.len() implies !#[trigger] op_in_class(
            c[j],
            q,
        ) by {
            lemma_rank_is_pass(o1.operator, q);
            lemma_rank_is_pass(o2.operator, q);
        }
        assert forall|j: int| 3 < j < c.len() implies !#[trigger] op_in_class(c[j], r2) by {}
        lemma_rank_is_pass(o2.operator, r2);
        law_loosest_last_operator_is_root(c, r2, 3);
        assert(c.subrange(0, 3) =~= seq![InterV::Expr(x), InterV::Op(o1), InterV::Expr(y)]);
        assert(c.subrange(4, 5) =~= seq![InterV::Expr(z)]);
        lemma_one_operator(x, o1, y);
    }
}

proof fn lemma_lead_skip(x: ExprV, o: ArithmeticOperator, p: nat)
    requires
        p < 6,
        o.operator == ArithmeticOperators::Not || o.operator == ArithmeticOperators::Subtraction,
        !in_pass(p as int, o.operator),
    ensures
        combo_pass(seq![InterV::Op(o), InterV::Expr(x)], p, 2) == combo_pass(
            seq![InterV::Op(o), InterV::Expr(x)],
            p + 1,
            2,
        ),
{
    let c = seq![InterV::Op(o), InterV::Expr(x)];
    assert(combo_pass(c, p, 2) == combo_pass(c, p, 1));
    assert(edge_error(c, 0, o) is None);
    assert(combo_pass(c, p, 1) == combo_pass(c, p, 0));
}

/// A leading `!` or `-` applies to the operand right after it, whatever
/// the operand.
pub proof fn law_leading_not_and_minus(x: ExprV, o: ArithmeticOperator)
    ensures
        o.operator == ArithmeticOperators::Not ==> spec_combo(
            seq![InterV::Op(o), InterV::Expr(x)],
        ) == Some(Ok::<ExprV, ParsingError>(ExprV::Not { col: o.col, ln: o.ln, val: Box::new(x) })),
        o.operator == ArithmeticOperators::Subtraction ==> spec_combo(
            seq![InterV::Op(o), InterV::Expr(x)],
        ) == Some(
            Ok::<ExprV, ParsingError>(ExprV::Negate { col: o.col, ln: o.ln, val: Box::new(x) }),
        ),
{
    let c = seq![InterV::Op(o), InterV::Expr(x)];
    if o.operator == ArithmeticOperators::Not || o.operator == ArithmeticOperators::Subtraction {
        let target: nat = if o.operator == ArithmeticOperators::Not { 5 } else { 3 };
        lemma_lead_skip(x, o, 0);
        lemma_lead_skip(x, o, 1);
        lemma_lead_skip(x, o, 2);
        if target == 5 {
            lemma_lead_skip(x, o, 3);
            lemma_lead_skip(x, o, 4);
        }
        assert(spec_combo(c) == combo_pass(c, target, 2));
        assert(combo_pass(c, target, 2) == combo_pass(c, target, 1));
        assert(edge_error(c, 0, o) is None);
        let e = if o.operator == ArithmeticOperators::Not {
            ExprV::Not { col: o.col, ln: o.ln, val: Box::new(x) }
        } else {
            ExprV::Negate { col: o.col, ln: o.ln, val: Box::new(x) }
        };
        assert(super::expression::fold_prefix(c, 0, e) =~= seq![InterV::Expr(e)]);
        assert(spec_combo(seq![InterV::Expr(e)]) == Some(Ok::<ExprV, ParsingError>(e)));
        assert(in_pass(target as int, o.operator));
        assert(combo_pass(c, target, 1) == spec_combo(super::expression::fold_prefix(c, 0, e)));
        assert(combo_pass(c, 0, 2) == combo_pass(c, 1, 2));
        assert(combo_pass(c, 1, 2) == combo_pass(c, 2, 2));
        assert(combo_pass(c, 2, 2) == combo_pass(c, 3, 2));
    }
}

} // verus!
