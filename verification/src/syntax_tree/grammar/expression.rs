use vstd::prelude::*;

use crate::syntax_tree::syntax::{
    Arithmetic, ArithmeticOperator, ArithmeticOperators, Boolean, ExprV, Expression,
    FunctionCall, ListCall, MatrixCall, Negate, Not, Number, ParsingError, Str, Variable,
    exprs_view, outcome_view, result_view,
};
use crate::text::{append_text, push_char};
use crate::tokenize::{Token, TokenKey, TokenV, raw_view, token_views};

verus! {

// ---------------------------------------------------------------------------
// Specification
// ---------------------------------------------------------------------------

/// A string literal's text without its first and last character (the
/// quotes); texts of fewer than two characters give the empty text.
pub open spec fn spec_parse_string(s: Seq<char>) -> Seq<char> {
    if s.len() <= 1 {
        Seq::empty()
    } else {
        s.subrange(1, s.len() - 1)
    }
}

/// An error at the position of token `t`.
pub open spec fn error_at(t: TokenV, reason: &'static str) -> ParsingError {
    ParsingError { col: t.col, ln: t.ln, reason }
}

/// The expression that a single token stands for; `None` where the token
/// has a literal kind but carries no text.
pub open spec fn spec_single(t: TokenV) -> Option<Result<ExprV, ParsingError>> {
    match t.key {
        TokenKey::True => Some(Ok(ExprV::Boolean { col: t.col, ln: t.ln, val: true })),
        TokenKey::False => Some(Ok(ExprV::Boolean { col: t.col, ln: t.ln, val: false })),
        TokenKey::PrimitiveString => match t.raw {
            Some(r) => Some(Ok(ExprV::Str { col: t.col, ln: t.ln, val: spec_parse_string(r) })),
            None => None,
        },
        TokenKey::PrimitiveNumber => match t.raw {
            Some(r) => Some(Ok(ExprV::Number { col: t.col, ln: t.ln, num: r })),
            None => None,
        },
        TokenKey::Keyword => match t.raw {
            Some(r) => Some(Ok(ExprV::Variable { col: t.col, ln: t.ln, name: r })),
            None => None,
        },
        _ => Some(Err(error_at(t, "Unrecognized word"))),
    }
}

/// The operator that a token kind stands for, if it stands for one.
pub open spec fn operator_of(key: TokenKey) -> Option<ArithmeticOperators> {
    match key {
        TokenKey::Addition => Some(ArithmeticOperators::Addition),
        TokenKey::Subtraction => Some(ArithmeticOperators::Subtraction),
        TokenKey::Multiplication => Some(ArithmeticOperators::Multiplication),
        TokenKey::Division => Some(ArithmeticOperators::Division),
        TokenKey::Assign => Some(ArithmeticOperators::Assign),
        TokenKey::AdditionAssign => Some(ArithmeticOperators::AdditionAssign),
        TokenKey::SubtractAssign => Some(ArithmeticOperators::SubtractAssign),
        TokenKey::Equals => Some(ArithmeticOperators::Equals),
        TokenKey::NotEquals => Some(ArithmeticOperators::NotEquals),
        TokenKey::GreaterThan => Some(ArithmeticOperators::GreaterThan),
        TokenKey::GreaterThanOrEquals => Some(ArithmeticOperators::GreaterThanOrEquals),
        TokenKey::LessThan => Some(ArithmeticOperators::LessThan),
        TokenKey::LessThanOrEquals => Some(ArithmeticOperators::LessThanOrEquals),
        TokenKey::Not => Some(ArithmeticOperators::Not),
        TokenKey::And => Some(ArithmeticOperators::And),
        TokenKey::Or => Some(ArithmeticOperators::Or),
        _ => None,
    }
}

/// An element of an expression being assembled: an operator, or an operand
/// already built.
pub enum InterV {
    Op(ArithmeticOperator),
    Expr(ExprV),
}

/// A token outside any parentheses or brackets: an operator, or else the
/// expression of the single token.
pub open spec fn spec_unknown(t: TokenV) -> Option<Result<InterV, ParsingError>> {
    match operator_of(t.key) {
        Some(op) => Some(Ok(InterV::Op(ArithmeticOperator { col: t.col, ln: t.ln, operator: op }))),
        None => match spec_single(t) {
            Some(Ok(e)) => Some(Ok(InterV::Expr(e))),
            Some(Err(e)) => Some(Err(e)),
            None => None,
        },
    }
}

/// The passes over the operators, from the loosest binding to the tightest.
pub open spec fn in_pass(p: int, op: ArithmeticOperators) -> bool {
    if p == 0 {
        op == ArithmeticOperators::Assign || op == ArithmeticOperators::AdditionAssign || op
            == ArithmeticOperators::SubtractAssign
    } else if p == 1 {
        op == ArithmeticOperators::And || op == ArithmeticOperators::Or
    } else if p == 2 {
        ||| op == ArithmeticOperators::Equals
        ||| op == ArithmeticOperators::NotEquals
        ||| op == ArithmeticOperators::GreaterThan
        ||| op == ArithmeticOperators::GreaterThanOrEquals
        ||| op == ArithmeticOperators::LessThan
        ||| op == ArithmeticOperators::LessThanOrEquals
    } else if p == 3 {
        op == ArithmeticOperators::Addition || op == ArithmeticOperators::Subtraction
    } else if p == 4 {
        op == ArithmeticOperators::Multiplication || op == ArithmeticOperators::Division
    } else if p == 5 {
        op == ArithmeticOperators::Not
    } else {
        false
    }
}

/// The element is an operator.
pub open spec fn is_op(x: InterV) -> bool {
    x is Op
}

/// The check made on an operator at the first or last place of the
/// elements: only `!` and `-` may start an expression, and only when an
/// operand follows them.
pub open spec fn edge_error(c: Seq<InterV>, i: int, op: ArithmeticOperator) -> Option<
    ParsingError,
> {
    if i == 0 || i == c.len() - 1 {
        if (op.operator == ArithmeticOperators::Not || op.operator
            == ArithmeticOperators::Subtraction) && i != c.len() - 1 {
            if is_op(c[i + 1]) {
                Some(ParsingError { col: op.col, ln: op.ln, reason: "Can't negate operator" })
            } else {
                None
            }
        } else {
            Some(
                ParsingError {
                    col: op.col,
                    ln: op.ln,
                    reason: if i == 0 {
                        "Can't start expression with a operator"
                    } else {
                        "Can't end expression with a operator"
                    },
                },
            )
        }
    } else {
        None
    }
}

/// `c` with the operator at `i` and the operand after it replaced by `e`.
pub open spec fn fold_prefix(c: Seq<InterV>, i: int, e: ExprV) -> Seq<InterV> {
    c.subrange(0, i) + seq![InterV::Expr(e)] + c.subrange(i + 2, c.len() as int)
}

/// The expression that a sequence of elements makes; `None` where the
/// elements are malformed beyond a reportable error.
pub open spec fn spec_combo(c: Seq<InterV>) -> Option<Result<ExprV, ParsingError>>
    decreases c.len(), 7nat, 0nat,
{
    if c.len() == 0 {
        None
    } else if c.len() == 1 {
        match c[0] {
            InterV::Expr(v) => Some(Ok(v)),
            InterV::Op(o) => Some(
                Err(ParsingError { col: o.col, ln: o.ln, reason: "Unexpected operator" }),
            ),
        }
    } else {
        combo_pass(c, 0, c.len())
    }
}

/// Pass `p` of the search for the operator to split at, looking at the
/// elements before position `k`, from right to left.
pub open spec fn combo_pass(c: Seq<InterV>, p: nat, k: nat) -> Option<
    Result<ExprV, ParsingError>,
>
    decreases c.len(), (6 - p) as nat, k,
{
    if p >= 6 {
        Some(Err(ParsingError { col: 0, ln: 0, reason: "any" }))
    } else if k == 0 || k > c.len() {
        combo_pass(c, p + 1, c.len())
    } else {
        let i = k - 1;
        match c[i] {
            InterV::Expr(_) => combo_pass(c, p, (k - 1) as nat),
            InterV::Op(op) => match edge_error(c, i, op) {
                Some(e) => Some(Err(e)),
                None => if in_pass(p as int, op.operator) {
                    if op.operator == ArithmeticOperators::Not && i + 1 < c.len() {
                        match c[i + 1] {
                            InterV::Expr(v) => spec_combo(
                                fold_prefix(
                                    c,
                                    i,
                                    ExprV::Not { col: op.col, ln: op.ln, val: Box::new(v) },
                                ),
                            ),
                            InterV::Op(_) => None,
                        }
                    } else if op.operator == ArithmeticOperators::Subtraction && (i == 0 || is_op(
                        c[i - 1],
                    )) && i + 1 < c.len() {
                        match c[i + 1] {
                            InterV::Expr(v) => spec_combo(
                                fold_prefix(
                                    c,
                                    i,
                                    ExprV::Negate { col: op.col, ln: op.ln, val: Box::new(v) },
                                ),
                            ),
                            InterV::Op(_) => None,
                        }
                    } else if 0 < i && i + 1 < c.len() {
                        match spec_combo(c.subrange(0, i)) {
                            Some(Ok(a)) => match spec_combo(c.subrange(i + 1, c.len() as int)) {
                                Some(Ok(b)) => Some(
                                    Ok(
                                        ExprV::Arithmetic {
                                            col: op.col,
                                            ln: op.ln,
                                            operator: op,
                                            a: Box::new(a),
                                            b: Box::new(b),
                                        },
                                    ),
                                ),
                                other => other,
                            },
                            other => other,
                        }
                    } else {
                        None
                    }
                } else {
                    combo_pass(c, p, (k - 1) as nat)
                },
            },
        }
    }
}

/// The `::` at position `i` joins two names: a name stands right before it
/// and right after it.
pub open spec fn joins_names(t: Seq<TokenV>, i: int) -> bool {
    1 <= i && i + 1 < t.len() && t[i - 1].key == TokenKey::Keyword && t[i + 1].key
        == TokenKey::Keyword
}

/// The name at position `j` with the namespaces before it: `a::b::c` for
/// the token `c` of `a :: b :: c`. `None` where a name carries no text.
pub open spec fn qualified_name(t: Seq<TokenV>, j: int) -> Option<Seq<char>>
    decreases j,
{
    if j < 0 || j >= t.len() {
        None
    } else {
        match t[j].raw {
            None => None,
            Some(r) => {
                if j >= 2 && t[j - 1].key == TokenKey::DoubleColon && t[j - 2].key
                    == TokenKey::Keyword {
                    match qualified_name(t, j - 2) {
                        Some(p) => Some(p + seq![':', ':'] + r),
                        None => None,
                    }
                } else {
                    Some(r)
                }
            },
        }
    }
}

/// The element that the token at `i`, outside any group, gives: a name
/// (with its namespaces) is a variable; any other token is read on its own.
pub open spec fn spec_operand(t: Seq<TokenV>, i: int) -> Option<Result<InterV, ParsingError>> {
    if t[i].key == TokenKey::Keyword {
        match qualified_name(t, i) {
            Some(name) => Some(
                Ok(InterV::Expr(ExprV::Variable { col: t[i].col, ln: t[i].ln, name })),
            ),
            None => None,
        }
    } else {
        spec_unknown(t[i])
    }
}

/// The state of the first pass over an expression's tokens: the elements
/// built so far, and the open parenthesis group and bracket group.
pub struct ScanState {
    pub combo: Seq<InterV>,
    pub p_count: nat,
    pub p_start: nat,
    pub p_func: bool,
    pub p_eval: bool,
    pub b_count: nat,
    pub b_start: nat,
    pub b_eval: bool,
}

/// The state before the first token.
pub open spec fn scan_start() -> ScanState {
    ScanState {
        combo: Seq::empty(),
        p_count: 0,
        p_start: 0,
        p_func: false,
        p_eval: false,
        b_count: 0,
        b_start: 0,
        b_eval: false,
    }
}

/// The state with a built operand added, or the outcome that stopped it.
pub open spec fn push_built(
    got: Option<Result<ExprV, ParsingError>>,
    st: ScanState,
) -> Option<Result<ScanState, ParsingError>> {
    match got {
        Some(Ok(x)) => Some(Ok(ScanState { combo: st.combo.push(InterV::Expr(x)), ..st })),
        Some(Err(e)) => Some(Err(e)),
        None => None,
    }
}

/// One step of the first pass, at token `i`.
pub open spec fn scan_step(t: Seq<TokenV>, i: int, st: ScanState) -> Option<
    Result<ScanState, ParsingError>,
>
    decreases t.len(), 1nat, 0nat,
{
    if i < 0 || i >= t.len() {
        None
    } else {
        let tok = t[i];
        if tok.key == TokenKey::Keyword && i != t.len() - 1 && (t[i + 1].key
            == TokenKey::ParentheseLeft || t[i + 1].key == TokenKey::BracketLeft || t[i + 1].key
            == TokenKey::DoubleColon) {
            Some(Ok(st))
        } else if tok.key == TokenKey::DoubleColon && !st.p_eval && !st.b_eval {
            if joins_names(t, i) {
                Some(Ok(st))
            } else {
                Some(Err(error_at(tok, "Unrecognized word")))
            }
        } else if tok.key == TokenKey::BracketLeft && !st.p_eval {
            if !st.b_eval {
                if i == 0 || t[i - 1].key != TokenKey::Keyword {
                    Some(Err(error_at(tok, "Unknown keyword")))
                } else {
                    Some(
                        Ok(
                            ScanState {
                                b_eval: true,
                                b_start: i as nat,
                                b_count: st.b_count + 1,
                                ..st
                            },
                        ),
                    )
                }
            } else {
                Some(Ok(ScanState { b_count: st.b_count + 1, ..st }))
            }
        } else if tok.key == TokenKey::BracketRight && !st.p_eval {
            if !st.b_eval {
                Some(Err(error_at(tok, "Unrecognized token")))
            } else if st.b_count == 1 {
                if st.b_start < 1 || st.b_start >= i {
                    None
                } else {
                    push_built(
                        spec_bracket_call(
                            qualified_name(t, st.b_start - 1),
                            t.subrange(st.b_start + 1 as int, i),
                        ),
                        ScanState { b_eval: false, b_count: 0, ..st },
                    )
                }
            } else {
                Some(Ok(ScanState { b_count: (st.b_count - 1) as nat, ..st }))
            }
        } else if tok.key == TokenKey::ParentheseLeft && !st.b_eval {
            if !st.p_eval {
                Some(
                    Ok(
                        ScanState {
                            p_eval: true,
                            p_start: i as nat,
                            p_func: st.p_func || (i != 0 && t[i - 1].key == TokenKey::Keyword),
                            p_count: st.p_count + 1,
                            ..st
                        },
                    ),
                )
            } else {
                Some(Ok(ScanState { p_count: st.p_count + 1, ..st }))
            }
        } else if tok.key == TokenKey::ParentheseRight && !st.b_eval {
            if !st.p_eval {
                Some(Err(error_at(tok, "Unrecognized token")))
            } else if st.p_count == 1 {
                if st.p_start >= i {
                    None
                } else {
                    let inner = t.subrange(st.p_start + 1 as int, i);
                    let next = ScanState { p_eval: false, p_count: 0, ..st };
                    if st.p_func {
                        if st.p_start < 1 {
                            None
                        } else {
                            let f = t[st.p_start - 1];
                            match qualified_name(t, st.p_start - 1) {
                                None => None,
                                Some(name) => match spec_func_args(inner) {
                                    Some(Ok(ps)) => push_built(
                                        Some(
                                            Ok(
                                                ExprV::FunctionCall {
                                                    col: f.col,
                                                    ln: f.ln,
                                                    params: ps,
                                                    name,
                                                },
                                            ),
                                        ),
                                        next,
                                    ),
                                    Some(Err(e)) => Some(Err(e)),
                                    None => None,
                                },
                            }
                        }
                    } else {
                        push_built(spec_eval(inner), next)
                    }
                }
            } else {
                Some(Ok(ScanState { p_count: (st.p_count - 1) as nat, ..st }))
            }
        } else if !st.p_eval && !st.b_eval {
            match spec_operand(t, i) {
                Some(Ok(x)) => Some(Ok(ScanState { combo: st.combo.push(x), ..st })),
                Some(Err(e)) => Some(Err(e)),
                None => None,
            }
        } else {
            Some(Ok(st))
        }
    }
}

/// The first pass over the first `n` tokens of `t`.
pub open spec fn scan(t: Seq<TokenV>, n: nat) -> Option<Result<ScanState, ParsingError>>
    decreases t.len(), 2nat, n,
{
    if n == 0 || n > t.len() {
        Some(Ok(scan_start()))
    } else {
        match scan(t, (n - 1) as nat) {
            Some(Ok(st)) => scan_step(t, n - 1, st),
            other => other,
        }
    }
}

/// The expression that the tokens `t` make; `None` where the tokens are
/// malformed beyond a reportable error.
pub open spec fn spec_eval(t: Seq<TokenV>) -> Option<Result<ExprV, ParsingError>>
    decreases t.len(), 3nat, 0nat,
{
    if t.len() == 1 {
        spec_single(t[0])
    } else {
        match scan(t, t.len()) {
            Some(Ok(st)) => spec_combo(st.combo),
            Some(Err(e)) => Some(Err(e)),
            None => None,
        }
    }
}

/// Where the tokens inside brackets split: at the first comma outside any
/// nested group, nowhere, or nowhere because a closing token has no opening
/// one.
pub enum BracketSplit {
    Comma(int),
    NoComma,
    Unbalanced,
}

/// Where the tokens from `i` on split, `p` parentheses and `b` brackets
/// being open.
pub open spec fn bracket_split(t: Seq<TokenV>, i: int, p: nat, b: nat) -> BracketSplit
    decreases t.len() - i,
{
    if i < 0 || i >= t.len() {
        BracketSplit::NoComma
    } else {
        let k = t[i].key;
        if k == TokenKey::Comma && p == 0 && b == 0 {
            BracketSplit::Comma(i)
        } else if k == TokenKey::BracketLeft {
            bracket_split(t, i + 1, p, b + 1)
        } else if k == TokenKey::BracketRight {
            if b == 0 {
                BracketSplit::Unbalanced
            } else {
                bracket_split(t, i + 1, p, (b - 1) as nat)
            }
        } else if k == TokenKey::ParentheseLeft {
            bracket_split(t, i + 1, p + 1, b)
        } else if k == TokenKey::ParentheseRight {
            if p == 0 {
                BracketSplit::Unbalanced
            } else {
                bracket_split(t, i + 1, (p - 1) as nat, b)
            }
        } else {
            bracket_split(t, i + 1, p, b)
        }
    }
}

/// A split point is a comma of `t` at or after `i`.
pub proof fn lemma_bracket_split(t: Seq<TokenV>, i: int, p: nat, b: nat)
    ensures
        bracket_split(t, i, p, b) matches BracketSplit::Comma(j) ==> 0 <= i <= j < t.len()
            && t[j].key == TokenKey::Comma,
        bracket_split(t, i, p, b) is Unbalanced ==> 0 <= i < t.len(),
    decreases t.len() - i,
{
    if 0 <= i < t.len() {
        let k = t[i].key;
        if k == TokenKey::Comma && p == 0 && b == 0 {
        } else if k == TokenKey::BracketLeft {
            lemma_bracket_split(t, i + 1, p, b + 1);
        } else if k == TokenKey::BracketRight {
            if b != 0 {
                lemma_bracket_split(t, i + 1, p, (b - 1) as nat);
            }
        } else if k == TokenKey::ParentheseLeft {
            lemma_bracket_split(t, i + 1, p + 1, b);
        } else if k == TokenKey::ParentheseRight {
            if p != 0 {
                lemma_bracket_split(t, i + 1, (p - 1) as nat, b);
            }
        } else {
            lemma_bracket_split(t, i + 1, p, b);
        }
    }
}

/// The expression that `f[t...]` makes: a matrix access where a top-level
/// comma separates two indices, a list access otherwise.
pub open spec fn spec_bracket_call(name: Option<Seq<char>>, t: Seq<TokenV>) -> Option<
    Result<ExprV, ParsingError>,
>
    decreases t.len(), 4nat, 0nat,
{
    let split = bracket_split(t, 0, 0, 0);
    proof {
        lemma_bracket_split(t, 0, 0, 0);
    }
    match split {
        BracketSplit::Comma(i) => {
            if 0 <= i < t.len() {
                match spec_eval(t.subrange(0, i)) {
                    Some(Ok(x)) => match spec_eval(t.subrange(i + 1, t.len() as int)) {
                        Some(Ok(y)) => match name {
                            Some(name) => Some(
                                Ok(
                                    ExprV::MatrixCall {
                                        col: t[0].col,
                                        ln: t[0].ln,
                                        first: Box::new(x),
                                        second: Box::new(y),
                                        name,
                                    },
                                ),
                            ),
                            None => None,
                        },
                        other => other,
                    },
                    other => other,
                }
            } else {
                None
            }
        },
        BracketSplit::Unbalanced => {
            if t.len() > 0 {
                Some(Err(error_at(t[0], "Unexpected token")))
            } else {
                None
            }
        },
        BracketSplit::NoComma => {
            if t.len() == 0 {
                None
            } else {
                match spec_eval(t) {
                    Some(Ok(x)) => match name {
                        Some(name) => Some(
                            Ok(
                                ExprV::ListCall {
                                    col: t[0].col,
                                    ln: t[0].ln,
                                    param: Box::new(x),
                                    name,
                                },
                            ),
                        ),
                        None => None,
                    },
                    other => other,
                }
            }
        },
    }
}

/// The state of the pass over a call's arguments: the arguments read so
/// far, the depth of open parentheses and brackets, and where the current
/// argument starts.
pub struct ArgsState {
    pub params: Seq<ExprV>,
    pub p: nat,
    pub b: nat,
    pub comma: nat,
}

/// One step of the pass over a call's arguments, at token `i`.
pub open spec fn args_step(t: Seq<TokenV>, i: int, st: ArgsState) -> Option<
    Result<ArgsState, ParsingError>,
>
    decreases t.len(), 4nat, 0nat,
{
    if i < 0 || i >= t.len() || st.comma > i {
        None
    } else {
        let k = t[i].key;
        let after_comma = if k == TokenKey::Comma && st.p == 0 && st.b == 0 {
            match spec_eval(t.subrange(st.comma as int, i)) {
                Some(Ok(x)) => Some(
                    Ok(ArgsState { params: st.params.push(x), comma: (i + 1) as nat, ..st }),
                ),
                Some(Err(e)) => Some(Err(e)),
                None => None,
            }
        } else {
            Some(Ok(st))
        };
        match after_comma {
            Some(Ok(s)) => {
                if k == TokenKey::BracketLeft {
                    Some(Ok(ArgsState { b: s.b + 1, ..s }))
                } else if k == TokenKey::BracketRight {
                    if s.b == 0 {
                        Some(Err(error_at(t[0], "Unexpected token")))
                    } else {
                        Some(Ok(ArgsState { b: (s.b - 1) as nat, ..s }))
                    }
                } else if k == TokenKey::ParentheseLeft {
                    Some(Ok(ArgsState { p: s.p + 1, ..s }))
                } else if k == TokenKey::ParentheseRight {
                    if s.p == 0 {
                        Some(Err(error_at(t[0], "Unexpected token")))
                    } else {
                        Some(Ok(ArgsState { p: (s.p - 1) as nat, ..s }))
                    }
                } else {
                    Some(Ok(s))
                }
            },
            other => other,
        }
    }
}

/// The pass over the first `n` tokens of a call's arguments.
pub open spec fn args_scan(t: Seq<TokenV>, n: nat) -> Option<Result<ArgsState, ParsingError>>
    decreases t.len(), 5nat, n,
{
    if n == 0 || n > t.len() {
        Some(Ok(ArgsState { params: Seq::empty(), p: 0, b: 0, comma: 0 }))
    } else {
        match args_scan(t, (n - 1) as nat) {
            Some(Ok(st)) => args_step(t, n - 1, st),
            other => other,
        }
    }
}

/// The arguments of a call: the tokens split at the commas outside any
/// nested group.
pub open spec fn spec_func_args(t: Seq<TokenV>) -> Option<Result<Seq<ExprV>, ParsingError>>
    decreases t.len(), 6nat, 0nat,
{
    if t.len() == 0 {
        Some(Ok(Seq::empty()))
    } else {
        match args_scan(t, t.len()) {
            Some(Ok(st)) => {
                if st.comma <= t.len() {
                    match spec_eval(t.subrange(st.comma as int, t.len() as int)) {
                        Some(Ok(x)) => Some(Ok(st.params.push(x))),
                        Some(Err(e)) => Some(Err(e)),
                        None => None,
                    }
                } else {
                    None
                }
            },
            Some(Err(e)) => Some(Err(e)),
            None => None,
        }
    }
}


// ---------------------------------------------------------------------------
// Implementation
// ---------------------------------------------------------------------------

/// The text of a string literal without its quotes: the first and the last
/// character are dropped.
pub fn parse_string(string: &str) -> (r: String)
    ensures
        r@ == spec_parse_string(string@),
{
    let n = string.unicode_len();
    if n <= 1 {
        String::new()
    } else {
        string.substring_char(1, n - 1).to_owned()
    }
}

/// An element of an expression being assembled.
enum InterExpr {
    ArithmeticOperator(ArithmeticOperator),
    Expression(Expression),
}

impl View for InterExpr {
    type V = InterV;

    closed spec fn view(&self) -> InterV {
        match self {
            InterExpr::ArithmeticOperator(o) => InterV::Op(*o),
            InterExpr::Expression(e) => InterV::Expr(e@),
        }
    }
}

spec fn inters_view(s: Seq<InterExpr>) -> Seq<InterV> {
    s.map_values(|x: InterExpr| x@)
}

/// The expression of a single token; `None` where the token has a literal
/// kind but carries no text.
fn eval_single(token: &Token) -> (r: Option<Result<Expression, ParsingError>>)
    ensures
        outcome_view(r) == spec_single(token@),
{
    match token.key {
        TokenKey::True => Some(
            Ok(Expression::Boolean(Boolean { col: token.col, ln: token.ln, val: true })),
        ),
        TokenKey::False => Some(
            Ok(Expression::Boolean(Boolean { col: token.col, ln: token.ln, val: false })),
        ),
        TokenKey::PrimitiveString => match &token.raw {
            Some(raw) => Some(
                Ok(
                    Expression::Str(
                        Str { col: token.col, ln: token.ln, val: parse_string(raw.as_str()) },
                    ),
                ),
            ),
            None => None,
        },
        TokenKey::PrimitiveNumber => match &token.raw {
            Some(raw) => Some(
                Ok(Expression::Number(Number { col: token.col, ln: token.ln, num: raw.clone() })),
            ),
            None => None,
        },
        TokenKey::Keyword => match &token.raw {
            Some(raw) => Some(
                Ok(
                    Expression::Variable(
                        Variable { col: token.col, ln: token.ln, name: raw.clone() },
                    ),
                ),
            ),
            None => None,
        },
        _ => Some(Err(ParsingError { col: token.col, ln: token.ln, reason: "Unrecognized word" })),
    }
}

fn operator_at(token: &Token, operator: ArithmeticOperators) -> (r: Option<
    Result<InterExpr, ParsingError>,
>)
    ensures
        r == Some(
            Ok::<InterExpr, ParsingError>(
                InterExpr::ArithmeticOperator(
                    ArithmeticOperator { col: token.col, ln: token.ln, operator },
                ),
            ),
        ),
{
    Some(
        Ok(
            InterExpr::ArithmeticOperator(
                ArithmeticOperator { col: token.col, ln: token.ln, operator },
            ),
        ),
    )
}

/// A token outside any group: an operator, or the expression of the token.
fn eval_unknown_token(token: &Token) -> (r: Option<Result<InterExpr, ParsingError>>)
    ensures
        outcome_view(r) == spec_unknown(token@),
{
    match token.key {
        TokenKey::Addition => operator_at(token, ArithmeticOperators::Addition),
        TokenKey::Subtraction => operator_at(token, ArithmeticOperators::Subtraction),
        TokenKey::Multiplication => operator_at(token, ArithmeticOperators::Multiplication),
        TokenKey::Division => operator_at(token, ArithmeticOperators::Division),
        TokenKey::Assign => operator_at(token, ArithmeticOperators::Assign),
        TokenKey::AdditionAssign => operator_at(token, ArithmeticOperators::AdditionAssign),
        TokenKey::SubtractAssign => operator_at(token, ArithmeticOperators::SubtractAssign),
        TokenKey::Equals => operator_at(token, ArithmeticOperators::Equals),
        TokenKey::NotEquals => operator_at(token, ArithmeticOperators::NotEquals),
        TokenKey::GreaterThan => operator_at(token, ArithmeticOperators::GreaterThan),
        TokenKey::GreaterThanOrEquals => operator_at(
            token,
            ArithmeticOperators::GreaterThanOrEquals,
        ),
        TokenKey::LessThan => operator_at(token, ArithmeticOperators::LessThan),
        TokenKey::LessThanOrEquals => operator_at(token, ArithmeticOperators::LessThanOrEquals),
        TokenKey::Not => operator_at(token, ArithmeticOperators::Not),
        TokenKey::And => operator_at(token, ArithmeticOperators::And),
        TokenKey::Or => operator_at(token, ArithmeticOperators::Or),
        _ => match eval_single(token) {
            Some(Ok(e)) => Some(Ok(InterExpr::Expression(e))),
            Some(Err(e)) => Some(Err(e)),
            None => None,
        },
    }
}

fn is_operator(x: &InterExpr) -> (b: bool)
    ensures
        b == is_op(x@),
{
    match x {
        InterExpr::ArithmeticOperator(_) => true,
        InterExpr::Expression(_) => false,
    }
}

fn in_pass_exec(p: usize, op: ArithmeticOperators) -> (b: bool)
    ensures
        b == in_pass(p as int, op),
{
    if p == 0 {
        op == ArithmeticOperators::Assign || op == ArithmeticOperators::AdditionAssign || op
            == ArithmeticOperators::SubtractAssign
    } else if p == 1 {
        op == ArithmeticOperators::And || op == ArithmeticOperators::Or
    } else if p == 2 {
        op == ArithmeticOperators::Equals || op == ArithmeticOperators::NotEquals || op
            == ArithmeticOperators::GreaterThan || op == ArithmeticOperators::GreaterThanOrEquals
            || op == ArithmeticOperators::LessThan || op == ArithmeticOperators::LessThanOrEquals
    } else if p == 3 {
        op == ArithmeticOperators::Addition || op == ArithmeticOperators::Subtraction
    } else if p == 4 {
        op == ArithmeticOperators::Multiplication || op == ArithmeticOperators::Division
    } else if p == 5 {
        op == ArithmeticOperators::Not
    } else {
        false
    }
}

proof fn lemma_inters_split(s: Seq<InterExpr>, a: int, b: int)
    requires
        0 <= a <= b <= s.len(),
    ensures
        inters_view(s.subrange(a, b)) == inters_view(s).subrange(a, b),
{
    assert(inters_view(s.subrange(a, b)) =~= inters_view(s).subrange(a, b));
}

/// Builds the expression of a sequence of elements: over six passes, from
/// the loosest operators to the tightest, the rightmost operator of the pass
/// splits the elements; a leading `!` or `-` wraps the operand after it.
/// `None` where the elements are malformed beyond a reportable error.
fn eval_combo_blocks(tokens: Vec<InterExpr>) -> (r: Option<Result<Expression, ParsingError>>)
    ensures
        outcome_view(r) == spec_combo(inters_view(tokens@)),
    decreases tokens@.len(),
{
    let ghost c = inters_view(tokens@);
    let n = tokens.len();
    if n == 0 {
        return None;
    }
    if n == 1 {
        let mut v = tokens;
        let last = v.pop().unwrap();
        return match last {
            InterExpr::Expression(val) => Some(Ok(val)),
            InterExpr::ArithmeticOperator(val) => Some(
                Err(ParsingError { col: val.col, ln: val.ln, reason: "Unexpected operator" }),
            ),
        };
    }
    let mut p: usize = 0;
    while p < 6
        invariant
            n == tokens@.len(),
            c == inters_view(tokens@),
            n >= 2,
            p <= 6,
            spec_combo(c) == combo_pass(c, p as nat, n as nat),
        decreases 6 - p,
    {
        let mut k: usize = n;
        while k > 0
            invariant
                n == tokens@.len(),
                c == inters_view(tokens@),
                n >= 2,
                p < 6,
                k <= n,
                spec_combo(c) == combo_pass(c, p as nat, k as nat),
            decreases k,
        {
            let i = k - 1;
            let found = match &tokens[i] {
                InterExpr::ArithmeticOperator(op) => Some(*op),
                InterExpr::Expression(_) => None,
            };
            match found {
                None => {
                    k = i;
                },
                Some(op) => {
                    assert(c[i as int] == InterV::Op(op));
                    if i == 0 || i == n - 1 {
                        if (op.operator == ArithmeticOperators::Not || op.operator
                            == ArithmeticOperators::Subtraction) && i != n - 1 {
                            if is_operator(&tokens[i + 1]) {
                                return Some(
                                    Err(
                                        ParsingError {
                                            col: op.col,
                                            ln: op.ln,
                                            reason: "Can't negate operator",
                                        },
                                    ),
                                );
                            }
                        } else {
                            return Some(
                                Err(
                                    ParsingError {
                                        col: op.col,
                                        ln: op.ln,
                                        reason: if i == 0 {
                                            "Can't start expression with a operator"
                                        } else {
                                            "Can't end expression with a operator"
                                        },
                                    },
                                ),
                            );
                        }
                    }
                    assert(edge_error(c, i as int, op) is None);
                    if in_pass_exec(p, op.operator) {
                        if op.operator == ArithmeticOperators::Not || (op.operator
                            == ArithmeticOperators::Subtraction && (i == 0 || is_operator(
                            &tokens[i - 1],
                        ))) {
                            // An operator at the last place was refused above,
                            // so an element follows.
                            let mut v = tokens;
                            let mut rest = v.split_off(i + 2);
                            let operand = v.pop().unwrap();
                            v.pop();
                            let val = match operand {
                                InterExpr::Expression(x) => x,
                                InterExpr::ArithmeticOperator(_) => {
                                    return None;
                                },
                            };
                            let wrapped = if op.operator == ArithmeticOperators::Not {
                                Expression::Not(Not { col: op.col, ln: op.ln, val: Box::new(val) })
                            } else {
                                Expression::Negate(
                                    Negate { col: op.col, ln: op.ln, val: Box::new(val) },
                                )
                            };
                            v.push(InterExpr::Expression(wrapped));
                            v.append(&mut rest);
                            assert(inters_view(v@) =~= fold_prefix(c, i as int, wrapped@));
                            return eval_combo_blocks(v);
                        }
                        let mut left = tokens;
                        let right = left.split_off(i + 1);
                        left.pop();
                        proof {
                            lemma_inters_split(tokens@, 0, i as int);
                            lemma_inters_split(tokens@, i + 1, n as int);
                            assert(left@ == tokens@.subrange(0, i as int));
                        }
                        let a = match eval_combo_blocks(left) {
                            Some(Ok(a)) => a,
                            other => {
                                return other;
                            },
                        };
                        let b = match eval_combo_blocks(right) {
                            Some(Ok(b)) => b,
                            other => {
                                return other;
                            },
                        };
                        return Some(
                            Ok(
                                Expression::Arithmetic(
                                    Arithmetic {
                                        col: op.col,
                                        ln: op.ln,
                                        operator: op,
                                        a: Box::new(a),
                                        b: Box::new(b),
                                    },
                                ),
                            ),
                        );
                    }
                    k = i;
                },
            }
        }
        p = p + 1;
    }
    Some(Err(ParsingError { col: 0, ln: 0, reason: "any" }))
}

/// The views of a part of the tokens are that part of their views.
pub proof fn lemma_views_subrange(ts: Seq<Token>, a: int, b: int)
    requires
        0 <= a <= b <= ts.len(),
    ensures
        token_views(ts.subrange(a, b)) == token_views(ts).subrange(a, b),
{
    assert(token_views(ts.subrange(a, b)) =~= token_views(ts).subrange(a, b));
}

proof fn lemma_scan_stuck(t: Seq<TokenV>, k: nat, n: nat)
    requires
        k <= n <= t.len(),
    ensures
        !(scan(t, k) matches Some(Ok(_))) ==> scan(t, n) == scan(t, k),
    decreases n - k,
{
    if n > k {
        lemma_scan_stuck(t, k, (n - 1) as nat);
    }
}

proof fn lemma_args_stuck(t: Seq<TokenV>, k: nat, n: nat)
    requires
        k <= n <= t.len(),
    ensures
        !(args_scan(t, k) matches Some(Ok(_))) ==> args_scan(t, n) == args_scan(t, k),
    decreases n - k,
{
    if n > k {
        lemma_args_stuck(t, k, (n - 1) as nat);
    }
}

proof fn lemma_exprs_push(es: Seq<Expression>, e: Expression)
    ensures
        exprs_view(es.push(e)) == exprs_view(es).push(e@),
{
    assert(es.push(e).drop_last() =~= es);
}

/// The name at position `j` with the namespaces before it (see
/// `qualified_name`).
fn name_at(tokens: &[Token], j: usize) -> (r: Option<String>)
    requires
        j < tokens@.len(),
    ensures
        raw_view(r) == qualified_name(token_views(tokens@), j as int),
    decreases j,
{
    let raw = match &tokens[j].raw {
        Some(raw) => raw,
        None => {
            return None;
        },
    };
    if j >= 2 && tokens[j - 1].key == TokenKey::DoubleColon && tokens[j - 2].key
        == TokenKey::Keyword {
        let mut s = match name_at(tokens, j - 2) {
            Some(s) => s,
            None => {
                return None;
            },
        };
        push_char(&mut s, ':');
        push_char(&mut s, ':');
        append_text(&mut s, raw.as_str());
        Some(s)
    } else {
        Some(raw.clone())
    }
}

/// The expression that a sequence of tokens makes; `None` where the tokens
/// are malformed beyond a reportable error (`spec_eval` is `None`).
///
/// A first pass builds the operands: a single token, a group in
/// parentheses, a call `name(args)`, or an access `name[...]`; the
/// operators in between are kept. The elements are then joined by
/// operator precedence (see `eval_combo_blocks`).
pub fn try_eval(tokens: &[Token]) -> (r: Option<Result<Expression, ParsingError>>)
    ensures
        outcome_view(r) == spec_eval(token_views(tokens@)),
    decreases tokens@.len(), 3nat, 0nat,
{
    let ghost t = token_views(tokens@);
    let n = tokens.len();
    if n == 1 {
        return eval_single(&tokens[0]);
    }
    let mut combo_blocks: Vec<InterExpr> = Vec::new();
    let mut p_count: usize = 0;
    let mut p_start: usize = 0;
    let mut p_func = false;
    let mut p_eval = false;
    let mut b_count: usize = 0;
    let mut b_start: usize = 0;
    let mut b_eval = false;
    let mut i: usize = 0;
    assert(inters_view(combo_blocks@) =~= Seq::<InterV>::empty());
    while i < n
        invariant
            n == tokens@.len(),
            t == token_views(tokens@),
            n != 1,
            i <= n,
            scan(t, i as nat) == Some(
                Ok::<ScanState, ParsingError>(
                    ScanState {
                        combo: inters_view(combo_blocks@),
                        p_count: p_count as nat,
                        p_start: p_start as nat,
                        p_func,
                        p_eval,
                        b_count: b_count as nat,
                        b_start: b_start as nat,
                        b_eval,
                    },
                ),
            ),
            p_eval <==> p_count > 0,
            b_eval <==> b_count > 0,
            !(p_eval && b_eval),
            p_count <= i,
            b_count <= i,
            p_eval ==> p_start < i,
            p_func ==> 1 <= p_start < i,
            b_eval ==> 1 <= b_start < i,
        decreases n - i,
    {
        let ghost st = ScanState {
            combo: inters_view(combo_blocks@),
            p_count: p_count as nat,
            p_start: p_start as nat,
            p_func,
            p_eval,
            b_count: b_count as nat,
            b_start: b_start as nat,
            b_eval,
        };
        assert(scan(t, (i + 1) as nat) == scan_step(t, i as int, st));
        proof {
            lemma_scan_stuck(t, (i + 1) as nat, n as nat);
        }
        let token = &tokens[i];
        if token.key == TokenKey::Keyword && i != n - 1 && (tokens[i + 1].key
            == TokenKey::ParentheseLeft || tokens[i + 1].key == TokenKey::BracketLeft
            || tokens[i + 1].key == TokenKey::DoubleColon) {
            // The name of a call, of an access or of a namespace: read with
            // what follows it.
        } else if token.key == TokenKey::DoubleColon && !p_eval && !b_eval {
            if !(1 <= i && i + 1 < n && tokens[i - 1].key == TokenKey::Keyword && tokens[i
                + 1].key == TokenKey::Keyword) {
                return Some(
                    Err(ParsingError { col: token.col, ln: token.ln, reason: "Unrecognized word" }),
                );
            }
        } else if token.key == TokenKey::BracketLeft && !p_eval {
            if !b_eval {
                if i == 0 || tokens[i - 1].key != TokenKey::Keyword {
                    return Some(
                        Err(
                            ParsingError {
                                col: token.col,
                                ln: token.ln,
                                reason: "Unknown keyword",
                            },
                        ),
                    );
                }
                b_eval = true;
                b_start = i;
            }
            b_count = b_count + 1;
        } else if token.key == TokenKey::BracketRight && !p_eval {
            if !b_eval {
                return Some(Err(ParsingError::from(token, "Unrecognized token")));
            }
            b_count = b_count - 1;
            if b_count == 0 {
                proof {
                    lemma_views_subrange(tokens@, b_start + 1, i as int);
                }
                let name = name_at(tokens, b_start - 1);
                match eval_bracket_call(&name, &tokens[b_start + 1..i]) {
                    Some(Ok(x)) => {
                        combo_blocks.push(InterExpr::Expression(x));
                    },
                    Some(Err(e)) => {
                        return Some(Err(e));
                    },
                    None => {
                        return None;
                    },
                }
                b_eval = false;
            }
        } else if token.key == TokenKey::ParentheseLeft && !b_eval {
            if !p_eval {
                p_eval = true;
                p_start = i;
                if i != 0 && tokens[i - 1].key == TokenKey::Keyword {
                    p_func = true;
                }
            }
            p_count = p_count + 1;
        } else if token.key == TokenKey::ParentheseRight && !b_eval {
            if !p_eval {
                return Some(Err(ParsingError::from(token, "Unrecognized token")));
            }
            p_count = p_count - 1;
            if p_count == 0 {
                proof {
                    lemma_views_subrange(tokens@, p_start + 1, i as int);
                }
                if p_func {
                    let func_tok = &tokens[p_start - 1];
                    let name = match name_at(tokens, p_start - 1) {
                        Some(name) => name,
                        None => {
                            return None;
                        },
                    };
                    match eval_func_args(&tokens[p_start + 1..i]) {
                        Some(Ok(params)) => {
                            let call = Expression::FunctionCall(
                                FunctionCall { col: func_tok.col, ln: func_tok.ln, params, name },
                            );
                            combo_blocks.push(InterExpr::Expression(call));
                        },
                        Some(Err(e)) => {
                            return Some(Err(e));
                        },
                        None => {
                            return None;
                        },
                    }
                } else {
                    match try_eval(&tokens[p_start + 1..i]) {
                        Some(Ok(x)) => {
                            combo_blocks.push(InterExpr::Expression(x));
                        },
                        other => {
                            return other;
                        },
                    }
                }
                p_eval = false;
            }
        } else if !p_eval && !b_eval && token.key == TokenKey::Keyword {
            match name_at(tokens, i) {
                Some(name) => {
                    let v = Expression::Variable(Variable { col: token.col, ln: token.ln, name });
                    combo_blocks.push(InterExpr::Expression(v));
                },
                None => {
                    return None;
                },
            }
        } else if !p_eval && !b_eval {
            match eval_unknown_token(token) {
                Some(Ok(x)) => {
                    combo_blocks.push(x);
                },
                Some(Err(e)) => {
                    return Some(Err(e));
                },
                None => {
                    return None;
                },
            }
        }
        assert(inters_view(combo_blocks@) =~= if inters_view(combo_blocks@).len() == st.combo.len() {
            st.combo
        } else {
            st.combo.push(inters_view(combo_blocks@).last())
        });
        i = i + 1;
    }
    eval_combo_blocks(combo_blocks)
}

/// The expression that a sequence of tokens makes (see `try_eval`), on
/// tokens that the parser can judge.
pub fn eval(tokens: &[Token]) -> (r: Result<Expression, ParsingError>)
    requires
        spec_eval(token_views(tokens@)) is Some,
    ensures
        Some(result_view(r)) == spec_eval(token_views(tokens@)),
{
    try_eval(tokens).unwrap()
}

/// The expression `name[...]` where `i_token` is the name and `tokens` lie
/// between the brackets: a matrix access when a comma outside any nested
/// group separates two indices, a list access otherwise.
fn eval_bracket_call(name: &Option<String>, tokens: &[Token]) -> (r: Option<
    Result<Expression, ParsingError>,
>)
    ensures
        outcome_view(r) == spec_bracket_call(raw_view(*name), token_views(tokens@)),
    decreases tokens@.len(), 4nat, 0nat,
{
    let ghost t = token_views(tokens@);
    let n = tokens.len();
    let mut p_count: usize = 0;
    let mut b_count: usize = 0;
    let mut i: usize = 0;
    proof {
        lemma_bracket_split(t, 0, 0, 0);
    }
    while i < n
        invariant
            n == tokens@.len(),
            t == token_views(tokens@),
            i <= n,
            p_count <= i,
            b_count <= i,
            bracket_split(t, 0, 0, 0) == bracket_split(t, i as int, p_count as nat, b_count as nat),
        decreases n - i,
    {
        let token = &tokens[i];
        if token.key == TokenKey::Comma && p_count == 0 && b_count == 0 {
            proof {
                lemma_views_subrange(tokens@, 0, i as int);
                lemma_views_subrange(tokens@, i + 1, n as int);
            }
            let col = tokens[0].col;
            let ln = tokens[0].ln;
            let first = match try_eval(&tokens[0..i]) {
                Some(Ok(x)) => x,
                other => {
                    return other;
                },
            };
            let second = match try_eval(&tokens[i + 1..n]) {
                Some(Ok(x)) => x,
                other => {
                    return other;
                },
            };
            let name = match name {
                Some(raw) => raw.clone(),
                None => {
                    return None;
                },
            };
            return Some(
                Ok(
                    Expression::MatrixCall(
                        MatrixCall { col, ln, params: Box::new((first, second)), name },
                    ),
                ),
            );
        }
        if token.key == TokenKey::BracketLeft {
            b_count = b_count + 1;
        } else if token.key == TokenKey::BracketRight {
            if b_count == 0 {
                return Some(
                    Err(
                        ParsingError {
                            col: tokens[0].col,
                            ln: tokens[0].ln,
                            reason: "Unexpected token",
                        },
                    ),
                );
            }
            b_count = b_count - 1;
        } else if token.key == TokenKey::ParentheseLeft {
            p_count = p_count + 1;
        } else if token.key == TokenKey::ParentheseRight {
            if p_count == 0 {
                return Some(
                    Err(
                        ParsingError {
                            col: tokens[0].col,
                            ln: tokens[0].ln,
                            reason: "Unexpected token",
                        },
                    ),
                );
            }
            p_count = p_count - 1;
        }
        i = i + 1;
    }
    if n == 0 {
        return None;
    }
    let col = tokens[0].col;
    let ln = tokens[0].ln;
    let param = match try_eval(tokens) {
        Some(Ok(x)) => x,
        other => {
            return other;
        },
    };
    let name = match name {
        Some(raw) => raw.clone(),
        None => {
            return None;
        },
    };
    Some(Ok(Expression::ListCall(ListCall { col, ln, params: Box::new(param), name })))
}

/// The arguments of a call: the tokens between the parentheses, split at
/// the commas outside any nested group.
fn eval_func_args(tokens: &[Token]) -> (r: Option<Result<Vec<Expression>, ParsingError>>)
    ensures
        match r {
            Some(Ok(v)) => spec_func_args(token_views(tokens@)) == Some(
                Ok::<Seq<ExprV>, ParsingError>(exprs_view(v@)),
            ),
            Some(Err(e)) => spec_func_args(token_views(tokens@)) == Some(
                Err::<Seq<ExprV>, ParsingError>(e),
            ),
            None => spec_func_args(token_views(tokens@)) is None,
        },
    decreases tokens@.len(), 6nat, 0nat,
{
    let ghost t = token_views(tokens@);
    let n = tokens.len();
    if n == 0 {
        let v: Vec<Expression> = Vec::new();
        assert(exprs_view(v@) =~= Seq::<ExprV>::empty());
        return Some(Ok(v));
    }
    let mut params: Vec<Expression> = Vec::new();
    let mut p_count: usize = 0;
    let mut b_count: usize = 0;
    let mut comma_i: usize = 0;
    let mut i: usize = 0;
    assert(exprs_view(params@) =~= Seq::<ExprV>::empty());
    while i < n
        invariant
            n == tokens@.len(),
            n > 0,
            t == token_views(tokens@),
            i <= n,
            comma_i <= i,
            p_count <= i,
            b_count <= i,
            args_scan(t, i as nat) == Some(
                Ok::<ArgsState, ParsingError>(
                    ArgsState {
                        params: exprs_view(params@),
                        p: p_count as nat,
                        b: b_count as nat,
                        comma: comma_i as nat,
                    },
                ),
            ),
        decreases n - i,
    {
        let ghost st = ArgsState {
            params: exprs_view(params@),
            p: p_count as nat,
            b: b_count as nat,
            comma: comma_i as nat,
        };
        assert(args_scan(t, (i + 1) as nat) == args_step(t, i as int, st));
        proof {
            lemma_args_stuck(t, (i + 1) as nat, n as nat);
        }
        let token = &tokens[i];
        if token.key == TokenKey::Comma && p_count == 0 && b_count == 0 {
            proof {
                lemma_views_subrange(tokens@, comma_i as int, i as int);
            }
            match try_eval(&tokens[comma_i..i]) {
                Some(Ok(x)) => {
                    proof {
                        lemma_exprs_push(params@, x);
                    }
                    params.push(x);
                },
                Some(Err(e)) => {
                    return Some(Err(e));
                },
                None => {
                    return None;
                },
            }
            comma_i = i + 1;
        }
        if token.key == TokenKey::BracketLeft {
            b_count = b_count + 1;
        } else if token.key == TokenKey::BracketRight {
            if b_count == 0 {
                return Some(
                    Err(
                        ParsingError {
                            col: tokens[0].col,
                            ln: tokens[0].ln,
                            reason: "Unexpected token",
                        },
                    ),
                );
            }
            b_count = b_count - 1;
        } else if token.key == TokenKey::ParentheseLeft {
            p_count = p_count + 1;
        } else if token.key == TokenKey::ParentheseRight {
            if p_count == 0 {
                return Some(
                    Err(
                        ParsingError {
                            col: tokens[0].col,
                            ln: tokens[0].ln,
                            reason: "Unexpected token",
                        },
                    ),
                );
            }
            p_count = p_count - 1;
        }
        i = i + 1;
    }
    proof {
        lemma_views_subrange(tokens@, comma_i as int, n as int);
    }
    match try_eval(&tokens[comma_i..n]) {
        Some(Ok(x)) => {
            proof {
                lemma_exprs_push(params@, x);
            }
            params.push(x);
            Some(Ok(params))
        },
        Some(Err(e)) => Some(Err(e)),
        None => None,
    }
}

} // verus!
