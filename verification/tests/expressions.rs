use sekver::syntax_tree::grammar::expression::{eval, parse_string, try_eval};
use sekver::syntax_tree::syntax::{
    Arithmetic, ArithmeticOperator, ArithmeticOperators, Boolean, Expression, FunctionCall,
    ListCall, MatrixCall, Negate, Not, Number, ParsingError, Str, Variable,
};
use sekver::tokenize::{try_tokenize, Token};

fn toks(code: &str) -> Vec<Token> {
    try_tokenize(code).unwrap()
}

fn expr(code: &str) -> Option<Result<Expression, ParsingError>> {
    try_eval(&toks(code))
}

fn var(name: &str, ln: usize, col: usize) -> Expression {
    Expression::Variable(Variable { col, ln, name: name.to_string() })
}

fn num(text: &str, ln: usize, col: usize) -> Expression {
    Expression::Number(Number { col, ln, num: text.to_string() })
}

fn op(operator: ArithmeticOperators, ln: usize, col: usize) -> ArithmeticOperator {
    ArithmeticOperator { col, ln, operator }
}

fn arith(o: ArithmeticOperator, a: Expression, b: Expression) -> Expression {
    Expression::Arithmetic(Arithmetic { col: o.col, ln: o.ln, operator: o, a: Box::new(a), b: Box::new(b) })
}

fn err(ln: usize, col: usize, reason: &'static str) -> Option<Result<Expression, ParsingError>> {
    Some(Err(ParsingError { col, ln, reason }))
}

#[test]
fn parse_string_drops_first_and_last_character() {
    assert_eq!(parse_string("\"abc\""), "abc");
    assert_eq!(parse_string("\"\""), "");
    assert_eq!(parse_string("ab"), "");
    assert_eq!(parse_string("a"), "");
    assert_eq!(parse_string(""), "");
    assert_eq!(parse_string("\"héllo\""), "héllo");
}

#[test]
fn single_tokens() {
    assert_eq!(expr("12.5"), Some(Ok(num("12.5", 1, 1))));
    assert_eq!(expr("x"), Some(Ok(var("x", 1, 1))));
    assert_eq!(
        expr("\"hi\""),
        Some(Ok(Expression::Str(Str { col: 4, ln: 1, val: "hi".to_string() })))
    );
    assert_eq!(expr("true"), Some(Ok(Expression::Boolean(Boolean { col: 1, ln: 1, val: true }))));
    assert_eq!(expr("false"), Some(Ok(Expression::Boolean(Boolean { col: 1, ln: 1, val: false }))));
    assert_eq!(expr("while"), err(1, 1, "Unrecognized word"));
}

#[test]
fn multiplication_binds_tighter_than_addition() {
    assert_eq!(
        expr("a + b * c"),
        Some(Ok(arith(
            op(ArithmeticOperators::Addition, 1, 3),
            var("a", 1, 1),
            arith(op(ArithmeticOperators::Multiplication, 1, 7), var("b", 1, 5), var("c", 1, 9)),
        )))
    );
}

#[test]
fn same_level_operators_group_to_the_left() {
    assert_eq!(
        expr("a - b - c"),
        Some(Ok(arith(
            op(ArithmeticOperators::Subtraction, 1, 7),
            arith(op(ArithmeticOperators::Subtraction, 1, 3), var("a", 1, 1), var("b", 1, 5)),
            var("c", 1, 9),
        )))
    );
}

#[test]
fn parentheses_group() {
    assert_eq!(
        expr("(a + b) * c"),
        Some(Ok(arith(
            op(ArithmeticOperators::Multiplication, 1, 9),
            arith(op(ArithmeticOperators::Addition, 1, 4), var("a", 1, 2), var("b", 1, 6)),
            var("c", 1, 11),
        )))
    );
}

#[test]
fn assignment_and_comparison_passes() {
    assert_eq!(
        expr("i += 1"),
        Some(Ok(arith(op(ArithmeticOperators::AdditionAssign, 1, 3), var("i", 1, 1), num("1", 1, 6))))
    );
    assert_eq!(
        expr("x = a < b && c"),
        Some(Ok(arith(
            op(ArithmeticOperators::Assign, 1, 3),
            var("x", 1, 1),
            arith(
                op(ArithmeticOperators::And, 1, 11),
                arith(op(ArithmeticOperators::LessThan, 1, 7), var("a", 1, 5), var("b", 1, 9)),
                var("c", 1, 14),
            ),
        )))
    );
}

#[test]
fn not_and_negation() {
    assert_eq!(
        expr("!a"),
        Some(Ok(Expression::Not(Not { col: 1, ln: 1, val: Box::new(var("a", 1, 2)) })))
    );
    assert_eq!(
        expr("-a + b"),
        Some(Ok(arith(
            op(ArithmeticOperators::Addition, 1, 4),
            Expression::Negate(Negate { col: 1, ln: 1, val: Box::new(var("a", 1, 2)) }),
            var("b", 1, 6),
        )))
    );
    assert_eq!(
        expr("a * -b"),
        Some(Ok(arith(
            op(ArithmeticOperators::Multiplication, 1, 3),
            var("a", 1, 1),
            Expression::Negate(Negate { col: 5, ln: 1, val: Box::new(var("b", 1, 6)) }),
        )))
    );
}

#[test]
fn function_calls() {
    assert_eq!(
        expr("f(a, 1)"),
        Some(Ok(Expression::FunctionCall(FunctionCall {
            col: 1,
            ln: 1,
            params: vec![var("a", 1, 3), num("1", 1, 6)],
            name: "f".to_string(),
        })))
    );
    assert_eq!(
        expr("f()"),
        Some(Ok(Expression::FunctionCall(FunctionCall {
            col: 1,
            ln: 1,
            params: vec![],
            name: "f".to_string(),
        })))
    );
    assert_eq!(
        expr("f(g(1), 2)"),
        Some(Ok(Expression::FunctionCall(FunctionCall {
            col: 1,
            ln: 1,
            params: vec![
                Expression::FunctionCall(FunctionCall {
                    col: 3,
                    ln: 1,
                    params: vec![num("1", 1, 5)],
                    name: "g".to_string(),
                }),
                num("2", 1, 9),
            ],
            name: "f".to_string(),
        })))
    );
}

#[test]
fn list_and_matrix_access() {
    assert_eq!(
        expr("l[1]"),
        Some(Ok(Expression::ListCall(ListCall {
            col: 3,
            ln: 1,
            params: Box::new(num("1", 1, 3)),
            name: "l".to_string(),
        })))
    );
    assert_eq!(
        expr("m[1, 2]"),
        Some(Ok(Expression::MatrixCall(MatrixCall {
            col: 3,
            ln: 1,
            params: Box::new((num("1", 1, 3), num("2", 1, 6))),
            name: "m".to_string(),
        })))
    );
}

#[test]
fn operator_placement_errors() {
    assert_eq!(expr("* a"), err(1, 1, "Can't start expression with a operator"));
    assert_eq!(expr("a +"), err(1, 3, "Can't end expression with a operator"));
    assert_eq!(expr("a !"), err(1, 3, "Can't end expression with a operator"));
    assert_eq!(expr("- + a"), err(1, 1, "Can't negate operator"));
    assert_eq!(expr("! = b"), err(1, 1, "Unexpected operator"));
}

#[test]
fn operands_without_operator() {
    assert_eq!(expr("a b"), err(0, 0, "any"));
}

#[test]
fn bracket_and_parenthesis_errors() {
    assert_eq!(expr("[1]"), err(1, 1, "Unknown keyword"));
    assert_eq!(expr("a )"), err(1, 3, "Unrecognized token"));
    assert_eq!(expr("a ]"), err(1, 3, "Unrecognized token"));
    assert_eq!(expr("a ;"), err(1, 3, "Unrecognized word"));
    assert_eq!(expr("m[1 ) , 2]"), err(1, 3, "Unexpected token"));
    assert_eq!(expr("f(1 ] )"), err(1, 3, "Unexpected token"));
}

#[test]
fn tokens_that_cannot_be_judged() {
    assert_eq!(expr(""), None);
    assert_eq!(expr("(a"), None);
    assert_eq!(expr("a[]"), None);
    assert_eq!(expr("m[, 1]"), None);
    assert_eq!(expr("f(1) + (2)"), None);
}

#[test]
fn eval_agrees_with_try_eval() {
    let ts = toks("a * (b - 1)");
    assert_eq!(Some(eval(&ts)), try_eval(&ts));
    let ts = toks("a +");
    assert_eq!(Some(eval(&ts)), try_eval(&ts));
}

#[test]
fn namespaced_names() {
    assert_eq!(
        expr("std::print_ln(x)"),
        Some(Ok(Expression::FunctionCall(FunctionCall {
            col: 6,
            ln: 1,
            params: vec![var("x", 1, 15)],
            name: "std::print_ln".to_string(),
        })))
    );
    assert_eq!(expr("a::b::c + 1"), Some(Ok(arith(
        op(ArithmeticOperators::Addition, 1, 9),
        var("a::b::c", 1, 7),
        num("1", 1, 11),
    ))));
    assert_eq!(
        expr("ns::l[2]"),
        Some(Ok(Expression::ListCall(ListCall {
            col: 7,
            ln: 1,
            params: Box::new(num("2", 1, 7)),
            name: "ns::l".to_string(),
        })))
    );
    assert_eq!(
        expr("f(a::b)"),
        Some(Ok(Expression::FunctionCall(FunctionCall {
            col: 1,
            ln: 1,
            params: vec![var("a::b", 1, 6)],
            name: "f".to_string(),
        })))
    );
}

#[test]
fn stray_namespace_separator() {
    assert_eq!(expr("a ::"), err(1, 3, "Unrecognized word"));
    assert_eq!(expr(":: a"), err(1, 1, "Unrecognized word"));
    assert_eq!(expr("1 :: a"), err(1, 3, "Unrecognized word"));
    assert_eq!(expr("a :: (b)"), err(1, 3, "Unrecognized word"));
}

#[test]
fn nested_commas_never_split_an_access() {
    assert_eq!(
        expr("m[f(1, 2), l[3, 4]]"),
        Some(Ok(Expression::MatrixCall(MatrixCall {
            col: 3,
            ln: 1,
            params: Box::new((
                Expression::FunctionCall(FunctionCall {
                    col: 3,
                    ln: 1,
                    params: vec![num("1", 1, 5), num("2", 1, 8)],
                    name: "f".to_string(),
                }),
                Expression::MatrixCall(MatrixCall {
                    col: 14,
                    ln: 1,
                    params: Box::new((num("3", 1, 14), num("4", 1, 17))),
                    name: "l".to_string(),
                }),
            )),
            name: "m".to_string(),
        })))
    );
    assert_eq!(
        expr("l[g(1, 2)]"),
        Some(Ok(Expression::ListCall(ListCall {
            col: 3,
            ln: 1,
            params: Box::new(Expression::FunctionCall(FunctionCall {
                col: 3,
                ln: 1,
                params: vec![num("1", 1, 5), num("2", 1, 8)],
                name: "g".to_string(),
            })),
            name: "l".to_string(),
        })))
    );
}
