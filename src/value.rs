use vstd::prelude::*;

use crate::token::TokenType;
use vstd::string::*;

verus! {

/// The number system that evaluation runs on. The evaluator decides every
/// type rule itself; it hands only the arithmetic, the comparisons, reading a
/// number literal and writing a number out to this trait.
///
/// Each operation's contract says only that its result is a function of its
/// operands: the matching `spec_` function. Any implementation whose
/// operations are plain functions of their arguments meets it; one written
/// outside Verus defines each `spec_` function as the matching operation.
/// The evaluator's contracts are stated over these functions.
pub trait Number: Copy {
    spec fn spec_from_lexeme(lexeme: String) -> Self;

    spec fn spec_plus(self, other: Self) -> Self;

    spec fn spec_minus(self, other: Self) -> Self;

    spec fn spec_times(self, other: Self) -> Self;

    spec fn spec_divided_by(self, other: Self) -> Self;

    spec fn spec_negated(self) -> Self;

    spec fn spec_less_than(self, other: Self) -> bool;

    spec fn spec_less_or_equal(self, other: Self) -> bool;

    spec fn spec_greater_than(self, other: Self) -> bool;

    spec fn spec_greater_or_equal(self, other: Self) -> bool;

    spec fn spec_equals(self, other: Self) -> bool;

    spec fn spec_render(self) -> String;

    /// The number that a number literal's lexeme denotes.
    fn from_lexeme(lexeme: &String) -> (r: Self)
        ensures
            r == Self::spec_from_lexeme(*lexeme),
    ;

    fn plus(self, other: Self) -> (r: Self)
        ensures
            r == self.spec_plus(other),
    ;

    fn minus(self, other: Self) -> (r: Self)
        ensures
            r == self.spec_minus(other),
    ;

    fn times(self, other: Self) -> (r: Self)
        ensures
            r == self.spec_times(other),
    ;

    fn divided_by(self, other: Self) -> (r: Self)
        ensures
            r == self.spec_divided_by(other),
    ;

    fn negated(self) -> (r: Self)
        ensures
            r == self.spec_negated(),
    ;

    fn less_than(self, other: Self) -> (r: bool)
        ensures
            r == self.spec_less_than(other),
    ;

    fn less_or_equal(self, other: Self) -> (r: bool)
        ensures
            r == self.spec_less_or_equal(other),
    ;

    fn greater_than(self, other: Self) -> (r: bool)
        ensures
            r == self.spec_greater_than(other),
    ;

    fn greater_or_equal(self, other: Self) -> (r: bool)
        ensures
            r == self.spec_greater_or_equal(other),
    ;

    fn equals(self, other: Self) -> (r: bool)
        ensures
            r == self.spec_equals(other),
    ;

    /// The canonical text of the number, as `print` writes it.
    fn render(self) -> (r: String)
        ensures
            r == self.spec_render(),
    ;
}

/// A runtime value.
#[derive(Clone, Debug, PartialEq)]
pub enum EvaluatedExpr<N> {
    Nil,
    String(String),
    Number(N),
    Boolean(bool),
}

impl<N: Number> EvaluatedExpr<N> {
    /// A copy of this value, equal to it.
    pub fn duplicate(&self) -> (r: EvaluatedExpr<N>)
        ensures
            r == *self,
    {
        match self {
            EvaluatedExpr::Nil => EvaluatedExpr::Nil,
            EvaluatedExpr::String(s) => EvaluatedExpr::String(s.clone()),
            EvaluatedExpr::Number(n) => EvaluatedExpr::Number(*n),
            EvaluatedExpr::Boolean(b) => EvaluatedExpr::Boolean(*b),
        }
    }
}

/// Which operand of an operator had the wrong type.
#[derive(Clone, Copy, Debug, PartialEq, Eq, Structural)]
pub enum Operand {
    Left,
    /// The right operand of a binary operator, or the operand of a unary one.
    Right,
}

/// A runtime error. The first one ends the run.
#[derive(Clone, Debug, PartialEq, Eq)]
pub enum InterpreterError {
    /// An operand had a type the operator does not take.
    TypeError { operator: TokenType, operand: Operand },
    /// A tree built by hand used a token that is no operator.
    UnsupportedOperator(TokenType),
    /// A variable was read or assigned that no scope binds.
    UndefinedVariable(String),
}

/// How an operator is written.
pub open spec fn operator_text(k: TokenType) -> Seq<char> {
    match k {
        TokenType::Minus => "-"@,
        TokenType::Plus => "+"@,
        TokenType::Slash => "/"@,
        TokenType::Star => "*"@,
        TokenType::Bang => "!"@,
        TokenType::BangEqual => "!="@,
        TokenType::EqualEqual => "=="@,
        TokenType::Greater => ">"@,
        TokenType::GreaterEqual => ">="@,
        TokenType::Less => "<"@,
        TokenType::LessEqual => "<="@,
        _ => "a token that is no operator"@,
    }
}

fn operator_str(k: TokenType) -> (r: &'static str)
    ensures
        r@ == operator_text(k),
{
    match k {
        TokenType::Minus => "-",
        TokenType::Plus => "+",
        TokenType::Slash => "/",
        TokenType::Star => "*",
        TokenType::Bang => "!",
        TokenType::BangEqual => "!=",
        TokenType::EqualEqual => "==",
        TokenType::Greater => ">",
        TokenType::GreaterEqual => ">=",
        TokenType::Less => "<",
        TokenType::LessEqual => "<=",
        _ => "a token that is no operator",
    }
}

impl InterpreterError {
    /// The diagnostic line: `{Category}Error: {message}`.
    pub fn diagnostic(&self) -> (r: String)
        ensures
            r@ == match self {
                InterpreterError::TypeError { operator, operand } => "TypeError: "@ + (
                if *operand == Operand::Left {
                    "left"@
                } else {
                    "right"@
                }) + " operand of '"@ + operator_text(*operator) + "' has the wrong type"@,
                InterpreterError::UnsupportedOperator(k) => "TypeError: unsupported operator '"@
                    + operator_text(*k) + "'"@,
                InterpreterError::UndefinedVariable(name) =>
                    "UndefinedVariableError: Undefined variable '"@ + name@ + "'"@,
            },
    {
        match self {
            InterpreterError::TypeError { operator, operand } => {
                let side = match operand {
                    Operand::Left => "left",
                    Operand::Right => "right",
                };
                let r = "TypeError: ".to_owned().concat(side);
                let r = r.concat(" operand of '").concat(operator_str(*operator));
                r.concat("' has the wrong type")
            },
            InterpreterError::UnsupportedOperator(k) => {
                let r = "TypeError: unsupported operator '".to_owned().concat(operator_str(*k));
                r.concat("'")
            },
            InterpreterError::UndefinedVariable(name) => {
                let r = "UndefinedVariableError: Undefined variable '".to_owned();
                r.concat(name.as_str()).concat("'")
            },
        }
    }
}

} // verus!
