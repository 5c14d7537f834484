use sekver::syntax_tree::grammar::blocks::{eval, if_block, return_block, try_eval, variable_init, while_block};
use sekver::syntax_tree::grammar::get_type;
use sekver::syntax_tree::syntax::{
    Arithmetic, ArithmeticOperator, ArithmeticOperators, Block, Expression, If, ListInit,
    MatrixInit, Number, ParsingError, Return, Types, Variable, VariableInit, VariableInitValues,
    While,
};
use sekver::tokenize::{try_tokenize, Token, TokenKey};

fn toks(code: &str) -> Vec<Token> {
    try_tokenize(code).unwrap()
}

fn var(name: &str, ln: usize, col: usize) -> Expression {
    Expression::Variable(Variable { col, ln, name: name.to_string() })
}

fn num(text: &str, ln: usize, col: usize) -> Expression {
    Expression::Number(Number { col, ln, num: text.to_string() })
}

fn arith(operator: ArithmeticOperators, ln: usize, col: usize, a: Expression, b: Expression) -> Expression {
    Expression::Arithmetic(Arithmetic {
        col,
        ln,
        operator: ArithmeticOperator { col, ln, operator },
        a: Box::new(a),
        b: Box::new(b),
    })
}

fn block_err(ln: usize, col: usize, reason: &'static str) -> Option<Result<Block, ParsingError>> {
    Some(Err(ParsingError { col, ln, reason }))
}

fn blocks_err(ln: usize, col: usize, reason: &'static str) -> Option<Result<Vec<Block>, ParsingError>> {
    Some(Err(ParsingError { col, ln, reason }))
}

#[test]
fn type_names() {
    let ts = toks("str num bln mtx lst emp foo");
    let got: Vec<Result<Types, ParsingError>> = ts.iter().map(|t| get_type::eval(t)).collect();
    assert_eq!(got, vec![
        Ok(Types::String),
        Ok(Types::Number),
        Ok(Types::Boolean),
        Ok(Types::Matrix),
        Ok(Types::List),
        Ok(Types::Empty),
        Err(ParsingError { col: 25, ln: 1, reason: "Unrecognized type" }),
    ]);
    let no_text = Token { key: TokenKey::Keyword, ln: 1, col: 1, raw: None };
    assert_eq!(get_type::try_eval(&no_text), None);
}

#[test]
fn variable_with_expression_value() {
    assert_eq!(
        variable_init::try_eval(&toks("var i: num = 0;")),
        Some(Ok(Block::VariableInit(VariableInit {
            col: 1,
            ln: 1,
            value: VariableInitValues::Expression(num("0", 1, 14)),
            tpe: Types::Number,
            name: "i".to_string(),
        })))
    );
}

#[test]
fn variable_with_matrix_size() {
    assert_eq!(
        variable_init::eval(&toks("var m: mtx = [2, 3];")),
        Ok(Block::VariableInit(VariableInit {
            col: 1,
            ln: 1,
            value: VariableInitValues::MatrixInit(MatrixInit {
                col: 14,
                ln: 1,
                width: num("2", 1, 15),
                height: num("3", 1, 18),
            }),
            tpe: Types::Matrix,
            name: "m".to_string(),
        }))
    );
}

#[test]
fn variable_with_list_length() {
    assert_eq!(
        variable_init::try_eval(&toks("var l: lst = [5];")),
        Some(Ok(Block::VariableInit(VariableInit {
            col: 1,
            ln: 1,
            value: VariableInitValues::ListInit(ListInit { col: 14, ln: 1, length: num("5", 1, 15) }),
            tpe: Types::List,
            name: "l".to_string(),
        })))
    );
}

#[test]
fn variable_errors() {
    assert_eq!(variable_init::try_eval(&toks("var x: num;")), block_err(1, 1, "Invalid variable initalization"));
    assert_eq!(variable_init::try_eval(&toks("var x = num = 1;")), block_err(1, 7, "Invalid word"));
    assert_eq!(variable_init::try_eval(&toks("var x: foo = 1;")), block_err(1, 8, "Unrecognized type"));
    assert_eq!(variable_init::try_eval(&toks("var m: mtx = 5;")), block_err(1, 14, "Invalid token"));
    assert_eq!(variable_init::try_eval(&toks("var m: mtx = [5;")), block_err(1, 15, "Invalid token"));
    assert_eq!(variable_init::try_eval(&toks("var m: mtx = [5];")), block_err(1, 14, "Unexpected token"));
    assert_eq!(
        variable_init::try_eval(&toks("var m: mtx = [[5];")),
        block_err(1, 14, "Couldn't find ',' in matrix initialization")
    );
    assert_eq!(variable_init::try_eval(&toks("var l: lst = 5;")), block_err(1, 14, "Invalid token"));
    assert_eq!(variable_init::try_eval(&[]), None);
}

#[test]
fn return_statements() {
    assert_eq!(
        return_block::eval(&toks("ret;")),
        Ok(Block::Return(Return { col: 1, ln: 1, eval: None }))
    );
    assert_eq!(
        return_block::try_eval(&toks("ret a + 1;")),
        Some(Ok(Block::Return(Return {
            col: 1,
            ln: 1,
            eval: Some(arith(ArithmeticOperators::Addition, 1, 7, var("a", 1, 5), num("1", 1, 9))),
        })))
    );
    assert_eq!(return_block::try_eval(&toks("ret")), None);
}

#[test]
fn if_and_while_blocks() {
    assert_eq!(
        if_block::eval(&toks("if a { ret; }")),
        Ok(Block::If(If {
            col: 1,
            ln: 1,
            eval: var("a", 1, 4),
            blocks: vec![Block::Return(Return { col: 8, ln: 1, eval: None })],
        }))
    );
    assert_eq!(
        while_block::try_eval(&toks("while i < 3 { i += 1; }")),
        Some(Ok(Block::While(While {
            col: 1,
            ln: 1,
            eval: arith(ArithmeticOperators::LessThan, 1, 9, var("i", 1, 7), num("3", 1, 11)),
            blocks: vec![Block::Expression(arith(
                ArithmeticOperators::AdditionAssign,
                1,
                17,
                var("i", 1, 15),
                num("1", 1, 20),
            ))],
        })))
    );
    assert_eq!(if_block::try_eval(&toks("if a")), block_err(1, 1, "Couldn't find start '{' for if"));
    assert_eq!(while_block::try_eval(&toks("while a")), block_err(1, 1, "Couldn't find start '{' for while"));
    assert_eq!(if_block::try_eval(&toks("if a {")), block_err(1, 1, "Couldn't find ending '}' for if"));
    assert_eq!(while_block::try_eval(&toks("while a {")), block_err(1, 1, "Couldn't find ending '}' for while"));
    assert_eq!(if_block::try_eval(&toks("if { }")), None);
}

#[test]
fn body_with_nested_blocks() {
    let code = "var x: num = 1;\nif x > 0 {\n  while x {\n    x -= 1;\n  }\n}\nret x;";
    let got = eval(&toks(code)).unwrap();
    assert_eq!(got.len(), 3);
    assert_eq!(
        got[1],
        Block::If(If {
            col: 1,
            ln: 2,
            eval: arith(ArithmeticOperators::GreaterThan, 2, 6, var("x", 2, 4), num("0", 2, 8)),
            blocks: vec![Block::While(While {
                col: 3,
                ln: 3,
                eval: var("x", 3, 9),
                blocks: vec![Block::Expression(arith(
                    ArithmeticOperators::SubtractAssign,
                    4,
                    7,
                    var("x", 4, 5),
                    num("1", 4, 10),
                ))],
            })],
        })
    );
    assert_eq!(got[2], Block::Return(Return { col: 1, ln: 7, eval: Some(var("x", 7, 5)) }));
}

#[test]
fn body_errors() {
    assert_eq!(try_eval(&toks("if a { ret;")), blocks_err(1, 1, "Couldn't find ending '}' for if"));
    assert_eq!(try_eval(&toks("while a { ret;")), blocks_err(1, 1, "Couldn't find ending '}' for while"));
    assert_eq!(try_eval(&toks("while a ret;")), blocks_err(1, 1, "Couldn't find starting '{' for if"));
    assert_eq!(try_eval(&toks("if a ret;")), blocks_err(1, 1, "Couldn't find starting '{' for if"));
    assert_eq!(try_eval(&toks("a = 1; b +;")), blocks_err(1, 10, "Can't end expression with a operator"));
}

#[test]
fn statement_without_semicolon_cannot_be_judged() {
    assert_eq!(try_eval(&toks("a + 1")), None);
    assert_eq!(try_eval(&toks("var x: num = 1")), None);
    assert_eq!(try_eval(&toks("a; b")), None);
}

#[test]
fn empty_body() {
    assert_eq!(try_eval(&[]), Some(Ok(vec![])));
    assert_eq!(eval(&[]), Ok(vec![]));
}
