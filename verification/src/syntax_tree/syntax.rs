use vstd::prelude::*;

use crate::tokenize::Token;

verus! {

/// The value types of the language.
#[derive(Debug, PartialEq, Eq, Clone, Copy, Structural)]
pub enum Types {
    Boolean,
    String,
    Number,
    Matrix,
    List,
    Empty,
}

/// A number literal. The literal is kept as it was written (`num`); turning it
/// into a floating-point value is left to the program that uses the tree.
#[derive(Debug, PartialEq, Clone)]
pub struct Number {
    pub col: usize,
    pub ln: usize,
    pub num: String,
}

#[derive(Debug, PartialEq, Clone)]
pub struct Str {
    pub col: usize,
    pub ln: usize,
    pub val: String,
}

#[derive(Debug, PartialEq, Clone)]
pub struct Boolean {
    pub col: usize,
    pub ln: usize,
    pub val: bool,
}

#[derive(Debug, PartialEq, Clone)]
pub struct Variable {
    pub col: usize,
    pub ln: usize,
    pub name: String,
}

#[derive(Debug, PartialEq)]
pub struct FunctionCall {
    pub col: usize,
    pub ln: usize,
    pub params: Vec<Expression>,
    pub name: String,
}

#[derive(Debug, PartialEq)]
pub struct MatrixCall {
    pub col: usize,
    pub ln: usize,
    pub params: Box<(Expression, Expression)>,
    pub name: String,
}

#[derive(Debug, PartialEq)]
pub struct ListCall {
    pub col: usize,
    pub ln: usize,
    pub params: Box<Expression>,
    pub name: String,
}

#[derive(Debug, PartialEq, Eq, Clone, Copy, Structural)]
pub enum ArithmeticOperators {
    Assign,
    AdditionAssign,
    SubtractAssign,
    Addition,
    Subtraction,
    Multiplication,
    Division,
    Equals,
    NotEquals,
    GreaterThan,
    Not,
    GreaterThanOrEquals,
    LessThan,
    LessThanOrEquals,
    And,
    Or,
}

#[derive(Debug, PartialEq, Eq, Clone, Copy, Structural)]
pub struct ArithmeticOperator {
    pub col: usize,
    pub ln: usize,
    pub operator: ArithmeticOperators,
}

#[derive(Debug, PartialEq)]
pub struct MatrixInit {
    pub col: usize,
    pub ln: usize,
    pub width: Expression,
    pub height: Expression,
}

#[derive(Debug, PartialEq)]
pub struct ListInit {
    pub col: usize,
    pub ln: usize,
    pub length: Expression,
}

#[derive(Debug, PartialEq)]
pub struct Arithmetic {
    pub col: usize,
    pub ln: usize,
    pub operator: ArithmeticOperator,
    pub a: Box<Expression>,
    pub b: Box<Expression>,
}

#[derive(Debug, PartialEq)]
pub struct Not {
    pub col: usize,
    pub ln: usize,
    pub val: Box<Expression>,
}

#[derive(Debug, PartialEq)]
pub struct Negate {
    pub col: usize,
    pub ln: usize,
    pub val: Box<Expression>,
}

#[derive(Debug, PartialEq)]
pub enum Expression {
    Number(Number),
    Boolean(Boolean),
    Str(Str),
    Not(Not),
    Negate(Negate),
    Variable(Variable),
    FunctionCall(FunctionCall),
    MatrixCall(MatrixCall),
    ListCall(ListCall),
    Arithmetic(Arithmetic),
}

#[derive(Debug, PartialEq)]
pub struct While {
    pub col: usize,
    pub ln: usize,
    pub eval: Expression,
    pub blocks: Vec<Block>,
}

#[derive(Debug, PartialEq)]
pub struct If {
    pub col: usize,
    pub ln: usize,
    pub eval: Expression,
    pub blocks: Vec<Block>,
}

#[derive(Debug, PartialEq)]
pub enum VariableInitValues {
    Expression(Expression),
    MatrixInit(MatrixInit),
    ListInit(ListInit),
}

#[derive(Debug, PartialEq)]
pub struct VariableInit {
    pub col: usize,
    pub ln: usize,
    pub value: VariableInitValues,
    pub tpe: Types,
    pub name: String,
}

#[derive(Debug, PartialEq)]
pub struct VariableSet {
    pub col: usize,
    pub ln: usize,
    pub value: Expression,
    pub name: String,
}

#[derive(Debug, PartialEq)]
pub struct Return {
    pub col: usize,
    pub ln: usize,
    pub eval: Option<Expression>,
}

#[derive(Debug, PartialEq)]
pub enum Block {
    VariableSet(VariableSet),
    VariableInit(VariableInit),
    Expression(Expression),
    While(While),
    Return(Return),
    If(If),
}

#[derive(Debug, PartialEq)]
pub struct Function {
    pub col: usize,
    pub ln: usize,
    pub ret: Types,
    pub exp: bool,
    pub params: Vec<Types>,
    pub name: String,
    pub blocks: Vec<Block>,
}

#[derive(Debug, PartialEq)]
pub struct Import {
    pub col: usize,
    pub ln: usize,
    pub namespace: String,
    pub from: String,
}

#[derive(Debug, PartialEq)]
pub struct ConstantInit {
    pub col: usize,
    pub ln: usize,
    pub tpe: Types,
    pub exp: bool,
    pub name: String,
    pub value: Expression,
}

#[derive(Debug, PartialEq)]
pub enum GlobalBlock {
    Function(Function),
    Import(Import),
    ConstantInit(ConstantInit),
}

/// Where parsing stopped, and why.
#[derive(Debug, PartialEq, Eq, Clone, Copy)]
pub struct ParsingError {
    pub col: usize,
    pub ln: usize,
    pub reason: &'static str,
}

impl ParsingError {
    /// An error at the position of `token`.
    pub fn from(token: &Token, reason: &'static str) -> (e: ParsingError)
        ensures
            e == (ParsingError { col: token.col, ln: token.ln, reason }),
    {
        ParsingError { col: token.col, ln: token.ln, reason }
    }
}

// ---------------------------------------------------------------------------
// Mathematical views of the tree: the same shape, with text as sequences of
// characters.
// ---------------------------------------------------------------------------

pub enum ExprV {
    Number { col: usize, ln: usize, num: Seq<char> },
    Boolean { col: usize, ln: usize, val: bool },
    Str { col: usize, ln: usize, val: Seq<char> },
    Not { col: usize, ln: usize, val: Box<ExprV> },
    Negate { col: usize, ln: usize, val: Box<ExprV> },
    Variable { col: usize, ln: usize, name: Seq<char> },
    FunctionCall { col: usize, ln: usize, params: Seq<ExprV>, name: Seq<char> },
    MatrixCall { col: usize, ln: usize, first: Box<ExprV>, second: Box<ExprV>, name: Seq<char> },
    ListCall { col: usize, ln: usize, param: Box<ExprV>, name: Seq<char> },
    Arithmetic {
        col: usize,
        ln: usize,
        operator: ArithmeticOperator,
        a: Box<ExprV>,
        b: Box<ExprV>,
    },
}

/// The view of an expression.
pub open spec fn expr_view(e: Expression) -> ExprV
    decreases e,
{
    match e {
        Expression::Number(n) => ExprV::Number { col: n.col, ln: n.ln, num: n.num@ },
        Expression::Boolean(b) => ExprV::Boolean { col: b.col, ln: b.ln, val: b.val },
        Expression::Str(s) => ExprV::Str { col: s.col, ln: s.ln, val: s.val@ },
        Expression::Not(n) => ExprV::Not { col: n.col, ln: n.ln, val: Box::new(expr_view(*n.val)) },
        Expression::Negate(n) => ExprV::Negate {
            col: n.col,
            ln: n.ln,
            val: Box::new(expr_view(*n.val)),
        },
        Expression::Variable(v) => ExprV::Variable { col: v.col, ln: v.ln, name: v.name@ },
        Expression::FunctionCall(f) => ExprV::FunctionCall {
            col: f.col,
            ln: f.ln,
            params: exprs_view(f.params@),
            name: f.name@,
        },
        Expression::MatrixCall(m) => ExprV::MatrixCall {
            col: m.col,
            ln: m.ln,
            first: Box::new(expr_view(m.params.0)),
            second: Box::new(expr_view(m.params.1)),
            name: m.name@,
        },
        Expression::ListCall(l) => ExprV::ListCall {
            col: l.col,
            ln: l.ln,
            param: Box::new(expr_view(*l.params)),
            name: l.name@,
        },
        Expression::Arithmetic(a) => ExprV::Arithmetic {
            col: a.col,
            ln: a.ln,
            operator: a.operator,
            a: Box::new(expr_view(*a.a)),
            b: Box::new(expr_view(*a.b)),
        },
    }
}

/// The views of a sequence of expressions.
pub open spec fn exprs_view(es: Seq<Expression>) -> Seq<ExprV>
    decreases es,
{
    if es.len() == 0 {
        Seq::empty()
    } else {
        exprs_view(es.drop_last()).push(expr_view(es.last()))
    }
}

impl View for Expression {
    type V = ExprV;

    open spec fn view(&self) -> ExprV {
        expr_view(*self)
    }
}

pub enum InitV {
    Expression(ExprV),
    MatrixInit { col: usize, ln: usize, width: ExprV, height: ExprV },
    ListInit { col: usize, ln: usize, length: ExprV },
}

pub enum BlockV {
    VariableSet { col: usize, ln: usize, value: ExprV, name: Seq<char> },
    VariableInit { col: usize, ln: usize, value: InitV, tpe: Types, name: Seq<char> },
    Expression(ExprV),
    While { col: usize, ln: usize, eval: ExprV, blocks: Seq<BlockV> },
    Return { col: usize, ln: usize, eval: Option<ExprV> },
    If { col: usize, ln: usize, eval: ExprV, blocks: Seq<BlockV> },
}

/// The view of a variable's initial value.
pub open spec fn init_view(v: VariableInitValues) -> InitV {
    match v {
        VariableInitValues::Expression(e) => InitV::Expression(e@),
        VariableInitValues::MatrixInit(m) => InitV::MatrixInit {
            col: m.col,
            ln: m.ln,
            width: m.width@,
            height: m.height@,
        },
        VariableInitValues::ListInit(l) => InitV::ListInit { col: l.col, ln: l.ln, length: l.length@ },
    }
}

impl View for VariableInitValues {
    type V = InitV;

    open spec fn view(&self) -> InitV {
        init_view(*self)
    }
}

/// The view of a block.
pub open spec fn block_view(b: Block) -> BlockV
    decreases b,
{
    match b {
        Block::VariableSet(s) => BlockV::VariableSet {
            col: s.col,
            ln: s.ln,
            value: s.value@,
            name: s.name@,
        },
        Block::VariableInit(v) => BlockV::VariableInit {
            col: v.col,
            ln: v.ln,
            value: v.value@,
            tpe: v.tpe,
            name: v.name@,
        },
        Block::Expression(e) => BlockV::Expression(e@),
        Block::While(w) => BlockV::While {
            col: w.col,
            ln: w.ln,
            eval: w.eval@,
            blocks: blocks_view(w.blocks@),
        },
        Block::Return(r) => BlockV::Return {
            col: r.col,
            ln: r.ln,
            eval: match r.eval {
                Some(e) => Some(e@),
                None => None,
            },
        },
        Block::If(i) => BlockV::If { col: i.col, ln: i.ln, eval: i.eval@, blocks: blocks_view(i.blocks@) },
    }
}

/// The views of a sequence of blocks.
pub open spec fn blocks_view(bs: Seq<Block>) -> Seq<BlockV>
    decreases bs,
{
    if bs.len() == 0 {
        Seq::empty()
    } else {
        blocks_view(bs.drop_last()).push(block_view(bs.last()))
    }
}

impl View for Block {
    type V = BlockV;

    open spec fn view(&self) -> BlockV {
        block_view(*self)
    }
}

pub struct FunctionV {
    pub col: usize,
    pub ln: usize,
    pub ret: Types,
    pub exp: bool,
    pub params: Seq<Types>,
    pub name: Seq<char>,
    pub blocks: Seq<BlockV>,
}

impl View for Function {
    type V = FunctionV;

    open spec fn view(&self) -> FunctionV {
        FunctionV {
            col: self.col,
            ln: self.ln,
            ret: self.ret,
            exp: self.exp,
            params: self.params@,
            name: self.name@,
            blocks: blocks_view(self.blocks@),
        }
    }
}

pub struct ImportV {
    pub col: usize,
    pub ln: usize,
    pub namespace: Seq<char>,
    pub from: Seq<char>,
}

impl View for Import {
    type V = ImportV;

    open spec fn view(&self) -> ImportV {
        ImportV { col: self.col, ln: self.ln, namespace: self.namespace@, from: self.from@ }
    }
}

pub struct ConstantInitV {
    pub col: usize,
    pub ln: usize,
    pub tpe: Types,
    pub exp: bool,
    pub name: Seq<char>,
    pub value: ExprV,
}

impl View for ConstantInit {
    type V = ConstantInitV;

    open spec fn view(&self) -> ConstantInitV {
        ConstantInitV {
            col: self.col,
            ln: self.ln,
            tpe: self.tpe,
            exp: self.exp,
            name: self.name@,
            value: self.value@,
        }
    }
}

pub enum GlobalBlockV {
    Function(FunctionV),
    Import(ImportV),
    ConstantInit(ConstantInitV),
}

impl View for GlobalBlock {
    type V = GlobalBlockV;

    open spec fn view(&self) -> GlobalBlockV {
        match self {
            GlobalBlock::Function(f) => GlobalBlockV::Function(f@),
            GlobalBlock::Import(i) => GlobalBlockV::Import(i@),
            GlobalBlock::ConstantInit(c) => GlobalBlockV::ConstantInit(c@),
        }
    }
}

/// The views of a sequence of top-level blocks.
pub open spec fn globals_view(gs: Seq<GlobalBlock>) -> Seq<GlobalBlockV> {
    gs.map_values(|g: GlobalBlock| g@)
}

/// The view of an outcome: the value's view, or the error as it is.
pub open spec fn result_view<T: View>(r: Result<T, ParsingError>) -> Result<T::V, ParsingError> {
    match r {
        Ok(v) => Ok(v@),
        Err(e) => Err(e),
    }
}

/// The view of a parse outcome: `None` stands for tokens that are
/// malformed beyond any error the parser reports.
pub open spec fn outcome_view<T: View>(r: Option<Result<T, ParsingError>>) -> Option<
    Result<T::V, ParsingError>,
> {
    match r {
        Some(x) => Some(result_view(x)),
        None => None,
    }
}

/// The view of a parse outcome that is a list of blocks.
pub open spec fn blocks_outcome(r: Option<Result<Vec<Block>, ParsingError>>) -> Option<
    Result<Seq<BlockV>, ParsingError>,
> {
    match r {
        Some(Ok(v)) => Some(Ok(blocks_view(v@))),
        Some(Err(e)) => Some(Err(e)),
        None => None,
    }
}

/// The view of a parse outcome that is a list of top-level blocks.
pub open spec fn globals_outcome(r: Option<Result<Vec<GlobalBlock>, ParsingError>>) -> Option<
    Result<Seq<GlobalBlockV>, ParsingError>,
> {
    match r {
        Some(Ok(v)) => Some(Ok(globals_view(v@))),
        Some(Err(e)) => Some(Err(e)),
        None => None,
    }
}

} // verus!
