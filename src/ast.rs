use vstd::prelude::*;

use crate::token::Token;

verus! {

/// An expression tree. Each node owns its children.
#[derive(Debug)]
pub enum Expr {
    Unary(Unary),
    Binary(Binary),
    Grouping(Grouping),
    Literal(Literal),
    Variable(Variable),
    Assign(Assign),
}

#[derive(Debug)]
pub struct Unary {
    pub op: Token,
    pub expr: Box<Expr>,
}

#[derive(Debug)]
pub struct Binary {
    pub left: Box<Expr>,
    pub op: Token,
    pub right: Box<Expr>,
}

#[derive(Debug)]
pub struct Grouping {
    pub expr: Box<Expr>,
}

/// A literal value. A number is kept as the lexeme the scanner found; the
/// number system that evaluates the tree reads it.
#[derive(Debug)]
pub enum Literal {
    Boolean(bool),
    String(String),
    Nil,
    Number(String),
}

#[derive(Debug)]
pub struct Variable {
    pub name: Token,
}

#[derive(Debug)]
pub struct Assign {
    pub name: Token,
    pub value: Box<Expr>,
}

impl Expr {
    pub fn new_binary(left: Expr, op: Token, right: Expr) -> (r: Expr)
        ensures
            r == Expr::Binary(Binary { left: Box::new(left), op, right: Box::new(right) }),
    {
        Expr::Binary(Binary { left: Box::new(left), op, right: Box::new(right) })
    }

    pub fn new_unary(op: Token, expr: Expr) -> (r: Expr)
        ensures
            r == Expr::Unary(Unary { op, expr: Box::new(expr) }),
    {
        Expr::Unary(Unary { op, expr: Box::new(expr) })
    }

    pub fn new_boolean_literal(v: bool) -> (r: Expr)
        ensures
            r == Expr::Literal(Literal::Boolean(v)),
    {
        Expr::Literal(Literal::Boolean(v))
    }

    pub fn new_nil_literal() -> (r: Expr)
        ensures
            r == Expr::Literal(Literal::Nil),
    {
        Expr::Literal(Literal::Nil)
    }

    /// A number literal, given by its lexeme.
    pub fn new_number_literal(lexeme: String) -> (r: Expr)
        ensures
            r == Expr::Literal(Literal::Number(lexeme)),
    {
        Expr::Literal(Literal::Number(lexeme))
    }

    pub fn new_string_literal(v: String) -> (r: Expr)
        ensures
            r == Expr::Literal(Literal::String(v)),
    {
        Expr::Literal(Literal::String(v))
    }

    pub fn new_grouping(expr: Expr) -> (r: Expr)
        ensures
            r == Expr::Grouping(Grouping { expr: Box::new(expr) }),
    {
        Expr::Grouping(Grouping { expr: Box::new(expr) })
    }

    pub fn new_variable(name: Token) -> (r: Expr)
        ensures
            r == Expr::Variable(Variable { name }),
    {
        Expr::Variable(Variable { name })
    }

    pub fn new_assign(name: Token, value: Expr) -> (r: Expr)
        ensures
            r == Expr::Assign(Assign { name, value: Box::new(value) }),
    {
        Expr::Assign(Assign { name, value: Box::new(value) })
    }
}

/// A statement.
#[derive(Debug)]
pub enum Statement {
    Expression(ExpressionStatement),
    Print(PrintStatement),
    Variable(VariableStatement),
    Block(BlockStatement),
}

#[derive(Debug)]
pub struct ExpressionStatement {
    pub expr: Expr,
}

#[derive(Debug)]
pub struct PrintStatement {
    pub expr: Expr,
}

#[derive(Debug)]
pub struct VariableStatement {
    pub name: Token,
    pub initializer: Option<Expr>,
}

#[derive(Debug)]
pub struct BlockStatement {
    pub statements: Vec<Statement>,
}

/// A statement as contracts see it: a block's statements form a sequence.
pub enum StatementModel {
    Expression(Expr),
    Print(Expr),
    Variable(Token, Option<Expr>),
    Block(Seq<StatementModel>),
}

pub open spec fn statement_model(s: Statement) -> StatementModel
    decreases s,
{
    match s {
        Statement::Expression(e) => StatementModel::Expression(e.expr),
        Statement::Print(p) => StatementModel::Print(p.expr),
        Statement::Variable(v) => StatementModel::Variable(v.name, v.initializer),
        Statement::Block(b) => StatementModel::Block(statements_model(b.statements@)),
    }
}

pub open spec fn statements_model(s: Seq<Statement>) -> Seq<StatementModel>
    decreases s,
{
    if s.len() == 0 {
        Seq::empty()
    } else {
        statements_model(s.drop_last()).push(statement_model(s.last()))
    }
}

impl View for Statement {
    type V = StatementModel;

    open spec fn view(&self) -> StatementModel {
        statement_model(*self)
    }
}

impl Statement {
    pub fn new_expression_statement(expr: Expr) -> (r: Statement)
        ensures
            r@ == StatementModel::Expression(expr),
    {
        Statement::Expression(ExpressionStatement { expr })
    }

    pub fn new_print_statement(expr: Expr) -> (r: Statement)
        ensures
            r@ == StatementModel::Print(expr),
    {
        Statement::Print(PrintStatement { expr })
    }

    pub fn new_var_statement(name: Token, initializer: Option<Expr>) -> (r: Statement)
        ensures
            r@ == StatementModel::Variable(name, initializer),
    {
        Statement::Variable(VariableStatement { name, initializer })
    }

    pub fn new_block_statement(statements: Vec<Statement>) -> (r: Statement)
        ensures
            r@ == StatementModel::Block(statements_model(statements@)),
    {
        Statement::Block(BlockStatement { statements })
    }
}

} // verus!
