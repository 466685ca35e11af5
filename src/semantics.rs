use vstd::prelude::*;

use crate::ast::{Expr, Literal, StatementModel};
use crate::environment::{assigned, defined, lookup, owner, Scopes};
use crate::token::TokenType;
use crate::value::{EvaluatedExpr, InterpreterError, Number, Operand};

verus! {

// The meaning of expressions and statements, as relations between the
// scopes (and printed lines) before and after, and the outcome. What numbers
// come out is given by the number system's operations.

/// Nil and false are falsy; every number, every string and true are truthy.
pub open spec fn truthy<N: Number>(v: EvaluatedExpr<N>) -> bool {
    match v {
        EvaluatedExpr::Nil => false,
        EvaluatedExpr::Boolean(b) => b,
        _ => true,
    }
}

/// Value equality: values of different types are unequal, nil equals nil,
/// numbers compare by the number system's equality.
pub open spec fn same_value<N: Number>(a: EvaluatedExpr<N>, b: EvaluatedExpr<N>) -> bool {
    match (a, b) {
        (EvaluatedExpr::Nil, EvaluatedExpr::Nil) => true,
        (EvaluatedExpr::Number(x), EvaluatedExpr::Number(y)) => x.spec_equals(y),
        (EvaluatedExpr::Boolean(x), EvaluatedExpr::Boolean(y)) => x == y,
        (EvaluatedExpr::String(x), EvaluatedExpr::String(y)) => x@ == y@,
        _ => false,
    }
}

pub open spec fn type_error<N: Number>(operator: TokenType, operand: Operand) -> Result<
    EvaluatedExpr<N>,
    InterpreterError,
> {
    Err(InterpreterError::TypeError { operator, operand })
}

pub open spec fn is_number<N: Number>(v: EvaluatedExpr<N>) -> bool {
    v is Number
}

pub open spec fn number<N: Number>(n: N) -> Result<EvaluatedExpr<N>, InterpreterError> {
    Ok(EvaluatedExpr::Number(n))
}

pub open spec fn boolean<N: Number>(b: bool) -> Result<EvaluatedExpr<N>, InterpreterError> {
    Ok(EvaluatedExpr::Boolean(b))
}

/// `-`, `/` or `*` on two numbers.
pub open spec fn arithmetic<N: Number>(op: TokenType, a: N, b: N) -> N {
    if op == TokenType::Minus {
        a.spec_minus(b)
    } else if op == TokenType::Slash {
        a.spec_divided_by(b)
    } else {
        a.spec_times(b)
    }
}

/// `>`, `>=`, `<` or `<=` on two numbers.
pub open spec fn comparison<N: Number>(op: TokenType, a: N, b: N) -> bool {
    if op == TokenType::Greater {
        a.spec_greater_than(b)
    } else if op == TokenType::GreaterEqual {
        a.spec_greater_or_equal(b)
    } else if op == TokenType::Less {
        a.spec_less_than(b)
    } else {
        a.spec_less_or_equal(b)
    }
}

pub open spec fn is_arithmetic(op: TokenType) -> bool {
    op == TokenType::Minus || op == TokenType::Slash || op == TokenType::Star
}

pub open spec fn is_comparison(op: TokenType) -> bool {
    op == TokenType::Greater || op == TokenType::GreaterEqual || op == TokenType::Less || op
        == TokenType::LessEqual
}

/// Outcome `r` of applying the unary operator `op` to `v`.
pub open spec fn unary_outcome<N: Number>(
    op: TokenType,
    v: EvaluatedExpr<N>,
    r: Result<EvaluatedExpr<N>, InterpreterError>,
) -> bool {
    if op == TokenType::Minus {
        if is_number(v) {
            r == number(v->Number_0.spec_negated())
        } else {
            r == type_error::<N>(op, Operand::Right)
        }
    } else if op == TokenType::Bang {
        r == Ok::<EvaluatedExpr<N>, InterpreterError>(EvaluatedExpr::Boolean(!truthy(v)))
    } else {
        r == Err::<EvaluatedExpr<N>, InterpreterError>(InterpreterError::UnsupportedOperator(op))
    }
}

/// Outcome `r` of applying the binary operator `op` to `a` and `b`.
pub open spec fn binary_outcome<N: Number>(
    op: TokenType,
    a: EvaluatedExpr<N>,
    b: EvaluatedExpr<N>,
    r: Result<EvaluatedExpr<N>, InterpreterError>,
) -> bool {
    if is_arithmetic(op) || is_comparison(op) {
        if !is_number(a) {
            r == type_error::<N>(op, Operand::Left)
        } else if !is_number(b) {
            r == type_error::<N>(op, Operand::Right)
        } else if is_arithmetic(op) {
            r == number(arithmetic(op, a->Number_0, b->Number_0))
        } else {
            r == boolean::<N>(comparison(op, a->Number_0, b->Number_0))
        }
    } else if op == TokenType::Plus {
        match (a, b) {
            (EvaluatedExpr::Number(x), EvaluatedExpr::Number(y)) => r == number(x.spec_plus(y)),
            (EvaluatedExpr::Number(_), _) => r == type_error::<N>(op, Operand::Right),
            (EvaluatedExpr::String(x), EvaluatedExpr::String(y)) => r is Ok && r->Ok_0 is String
                && r->Ok_0->String_0@ == x@ + y@,
            (EvaluatedExpr::String(_), _) => r == type_error::<N>(op, Operand::Right),
            _ => r == type_error::<N>(op, Operand::Left),
        }
    } else if op == TokenType::EqualEqual {
        r == boolean::<N>(same_value(a, b))
    } else if op == TokenType::BangEqual {
        r == boolean::<N>(!same_value(a, b))
    } else {
        r == Err::<EvaluatedExpr<N>, InterpreterError>(InterpreterError::UnsupportedOperator(op))
    }
}

/// Outcome `r` of a literal.
pub open spec fn literal_outcome<N: Number>(l: Literal, r: Result<EvaluatedExpr<N>, InterpreterError>) -> bool {
    match l {
        Literal::Boolean(b) => r == Ok::<EvaluatedExpr<N>, InterpreterError>(
            EvaluatedExpr::Boolean(b),
        ),
        Literal::String(s) => r == Ok::<EvaluatedExpr<N>, InterpreterError>(
            EvaluatedExpr::String(s),
        ),
        Literal::Nil => r == Ok::<EvaluatedExpr<N>, InterpreterError>(EvaluatedExpr::Nil),
        Literal::Number(lexeme) => r == number(N::spec_from_lexeme(lexeme)),
    }
}

/// Holds of every value. The relations below range over the intermediate
/// scopes and outcomes of a step; this marks them, so that a proof can name
/// the ones it has at hand.
pub open spec fn intermediate<T>(x: T) -> bool {
    true
}

/// Evaluating `e` from scopes `s0` can end in scopes `s1` with outcome `r`.
/// Operands are evaluated left to right; the first error is the outcome.
pub open spec fn evaluates<N: Number>(
    e: Expr,
    s0: Scopes<N>,
    s1: Scopes<N>,
    r: Result<EvaluatedExpr<N>, InterpreterError>,
) -> bool
    decreases e,
{
    match e {
        Expr::Literal(l) => s1 == s0 && literal_outcome(l, r),
        Expr::Grouping(g) => evaluates(*g.expr, s0, s1, r),
        Expr::Variable(v) => s1 == s0 && r == lookup(s0, v.name.lexeme),
        Expr::Assign(a) => exists|sm: Scopes<N>, rv: Result<EvaluatedExpr<N>, InterpreterError>|
            #[trigger] intermediate((sm, rv)) && evaluates(*a.value, s0, sm, rv) && match rv {
                Err(err) => s1 == sm && r == Err::<EvaluatedExpr<N>, InterpreterError>(err),
                Ok(v) => if owner(sm, a.name.lexeme@) is Some {
                    s1 == assigned(sm, a.name.lexeme@, v) && r == Ok::<
                        EvaluatedExpr<N>,
                        InterpreterError,
                    >(v)
                } else {
                    s1 == sm && r == Err::<EvaluatedExpr<N>, InterpreterError>(
                        InterpreterError::UndefinedVariable(a.name.lexeme),
                    )
                },
            },
        Expr::Unary(u) => exists|rv: Result<EvaluatedExpr<N>, InterpreterError>|
            #[trigger] intermediate(rv) && evaluates(*u.expr, s0, s1, rv) && match rv {
                Err(err) => r == Err::<EvaluatedExpr<N>, InterpreterError>(err),
                Ok(v) => unary_outcome(u.op.token_type, v, r),
            },
        Expr::Binary(b) => exists|sm: Scopes<N>, ra: Result<EvaluatedExpr<N>, InterpreterError>|
            #[trigger] intermediate((sm, ra)) && evaluates(*b.left, s0, sm, ra) && match ra {
                Err(err) => s1 == sm && r == Err::<EvaluatedExpr<N>, InterpreterError>(err),
                Ok(va) => exists|rb: Result<EvaluatedExpr<N>, InterpreterError>|
                    #[trigger] intermediate(rb) && evaluates(*b.right, sm, s1, rb) && match rb {
                        Err(err) => r == Err::<EvaluatedExpr<N>, InterpreterError>(err),
                        Ok(vb) => binary_outcome(b.op.token_type, va, vb, r),
                    },
            },
    }
}

/// Whether `text` is how `print` writes `v`.
pub open spec fn renders<N: Number>(v: EvaluatedExpr<N>, text: Seq<char>) -> bool {
    match v {
        EvaluatedExpr::Nil => text == "nil"@,
        EvaluatedExpr::Boolean(b) => text == if b {
            "true"@
        } else {
            "false"@
        },
        EvaluatedExpr::String(s) => text == s@,
        EvaluatedExpr::Number(n) => text == n.spec_render()@,
    }
}

/// Executing `st` from scopes `s0` and printed lines `o0` can end in `s1`
/// and `o1` with outcome `r`.
pub open spec fn executes<N: Number>(
    st: StatementModel,
    s0: Scopes<N>,
    o0: Seq<Seq<char>>,
    s1: Scopes<N>,
    o1: Seq<Seq<char>>,
    r: Result<(), InterpreterError>,
) -> bool
    decreases st,
{
    match st {
        StatementModel::Expression(e) => exists|rv: Result<EvaluatedExpr<N>, InterpreterError>|
            #[trigger] intermediate(rv) && evaluates(e, s0, s1, rv) && o1 == o0 && match rv {
                Ok(_) => r is Ok,
                Err(err) => r == Err::<(), InterpreterError>(err),
            },
        StatementModel::Print(e) => exists|rv: Result<EvaluatedExpr<N>, InterpreterError>|
            #[trigger] intermediate(rv) && evaluates(e, s0, s1, rv) && match rv {
                Ok(v) => r is Ok && o1.len() == o0.len() + 1 && o1.drop_last() == o0 && renders(
                    v,
                    o1.last(),
                ),
                Err(err) => o1 == o0 && r == Err::<(), InterpreterError>(err),
            },
        StatementModel::Variable(name, init) => o1 == o0 && match init {
            None => s1 == defined(s0, name.lexeme@, EvaluatedExpr::Nil) && r is Ok,
            Some(e) => exists|sm: Scopes<N>, rv: Result<EvaluatedExpr<N>, InterpreterError>|
                #[trigger] intermediate((sm, rv)) && evaluates(e, s0, sm, rv) && match rv {
                    Ok(v) => s1 == defined(sm, name.lexeme@, v) && r is Ok,
                    Err(err) => s1 == sm && r == Err::<(), InterpreterError>(err),
                },
        },
        StatementModel::Block(ss) => exists|sm: Scopes<N>|
            #[trigger] intermediate(sm) && executes_all(ss, s0.push(Map::empty()), o0, sm, o1, r) && s1
                == sm.drop_last(),
    }
}

/// Executing `ss` in order, stopping at the first error.
pub open spec fn executes_all<N: Number>(
    ss: Seq<StatementModel>,
    s0: Scopes<N>,
    o0: Seq<Seq<char>>,
    s1: Scopes<N>,
    o1: Seq<Seq<char>>,
    r: Result<(), InterpreterError>,
) -> bool
    decreases ss,
{
    if ss.len() == 0 {
        s1 == s0 && o1 == o0 && r is Ok
    } else {
        exists|sm: Scopes<N>, om: Seq<Seq<char>>, r0: Result<(), InterpreterError>|
            #[trigger] intermediate((sm, om, r0)) && executes(ss[0], s0, o0, sm, om, r0) && match r0 {
                Ok(_) => executes_all(ss.drop_first(), sm, om, s1, o1, r),
                Err(err) => s1 == sm && o1 == om && r == Err::<(), InterpreterError>(err),
            }
    }
}

} // verus!
