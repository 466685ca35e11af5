use vstd::prelude::*;
use vstd::string::*;

use crate::ast::{statement_model, statements_model, Expr, Literal, Statement};
use crate::environment::{assigned, lemma_owner_bound, Environment, Scopes};
use crate::error::{from_parser_errors, from_scanner_errors, FacingRoxError};
use crate::parser::{parse, parse_tokens, ParseErrorModel};
use crate::scanner::{lex, scan, ScanErrorModel};
use crate::semantics::{
    binary_outcome, evaluates, executes, executes_all, intermediate, is_number, renders,
    same_value, truthy, unary_outcome,
};
use crate::token::{Token, TokenType};
use crate::value::{EvaluatedExpr, InterpreterError, Number, Operand};

verus! {

proof fn lemma_statements_model_index(ss: Seq<Statement>)
    ensures
        statements_model(ss).len() == ss.len(),
        forall|i: int|
            0 <= i < ss.len() ==> #[trigger] statements_model(ss)[i] == statement_model(ss[i]),
    decreases ss.len(),
{
    if ss.len() > 0 {
        lemma_statements_model_index(ss.drop_last());
    }
}

proof fn lemma_assigned_len<N: Number>(s: Scopes<N>, name: Seq<char>, v: EvaluatedExpr<N>)
    ensures
        assigned(s, name, v).len() == s.len(),
{
    lemma_owner_bound(s, name);
}

/// Truthiness: nil and false are falsy, everything else is truthy.
pub fn is_truthy<N: Number>(value: &EvaluatedExpr<N>) -> (r: bool)
    ensures
        r == truthy(*value),
{
    match value {
        EvaluatedExpr::Nil => false,
        EvaluatedExpr::String(_) => true,
        EvaluatedExpr::Number(_) => true,
        EvaluatedExpr::Boolean(b) => *b,
    }
}

/// Value equality: different types are unequal, numbers compare by the
/// number system's equality.
pub fn values_equal<N: Number>(a: &EvaluatedExpr<N>, b: &EvaluatedExpr<N>) -> (r: bool)
    ensures
        r == same_value(*a, *b),
{
    match (a, b) {
        (EvaluatedExpr::Nil, EvaluatedExpr::Nil) => true,
        (EvaluatedExpr::Boolean(x), EvaluatedExpr::Boolean(y)) => *x == *y,
        (EvaluatedExpr::String(x), EvaluatedExpr::String(y)) => *x == *y,
        (EvaluatedExpr::Number(x), EvaluatedExpr::Number(y)) => x.equals(*y),
        _ => false,
    }
}

/// The text `print` writes for a value.
pub fn render<N: Number>(value: EvaluatedExpr<N>) -> (r: String)
    ensures
        renders(value, r@),
{
    match value {
        EvaluatedExpr::Nil => "nil".to_owned(),
        EvaluatedExpr::String(s) => s,
        EvaluatedExpr::Number(n) => n.render(),
        EvaluatedExpr::Boolean(b) => if b {
            "true".to_owned()
        } else {
            "false".to_owned()
        },
    }
}

/// Applies a unary operator to its evaluated operand.
pub fn apply_unary<N: Number>(op: &Token, operand: EvaluatedExpr<N>) -> (r: Result<
    EvaluatedExpr<N>,
    InterpreterError,
>)
    ensures
        unary_outcome(op.token_type, operand, r),
{
    match op.token_type {
        TokenType::Minus => match operand {
            EvaluatedExpr::Number(v) => Ok(EvaluatedExpr::Number(v.negated())),
            _ => Err(
                InterpreterError::TypeError { operator: TokenType::Minus, operand: Operand::Right },
            ),
        },
        TokenType::Bang => Ok(EvaluatedExpr::Boolean(!is_truthy(&operand))),
        t => Err(InterpreterError::UnsupportedOperator(t)),
    }
}

/// Both operands as numbers, or the type error naming the first that is not one.
fn number_operands<N: Number>(op: TokenType, left: &EvaluatedExpr<N>, right: &EvaluatedExpr<N>) -> (r:
    Result<(N, N), InterpreterError>)
    ensures
        match r {
            Ok((a, b)) => *left == EvaluatedExpr::Number(a) && *right == EvaluatedExpr::<N>::Number(
                b,
            ),
            Err(e) => if !is_number(*left) {
                e == InterpreterError::TypeError { operator: op, operand: Operand::Left }
            } else {
                !is_number(*right) && e == InterpreterError::TypeError {
                    operator: op,
                    operand: Operand::Right,
                }
            },
        },
{
    match left {
        EvaluatedExpr::Number(a) => match right {
            EvaluatedExpr::Number(b) => Ok((*a, *b)),
            _ => Err(InterpreterError::TypeError { operator: op, operand: Operand::Right }),
        },
        _ => Err(InterpreterError::TypeError { operator: op, operand: Operand::Left }),
    }
}

/// Applies a binary operator to its evaluated operands.
pub fn apply_binary<N: Number>(
    op: &Token,
    left: EvaluatedExpr<N>,
    right: EvaluatedExpr<N>,
) -> (r: Result<EvaluatedExpr<N>, InterpreterError>)
    ensures
        binary_outcome(op.token_type, left, right, r),
{
    let kind = op.token_type;
    match kind {
        TokenType::Minus | TokenType::Slash | TokenType::Star => {
            match number_operands(kind, &left, &right) {
                Err(e) => Err(e),
                Ok((a, b)) => Ok(
                    EvaluatedExpr::Number(
                        match kind {
                            TokenType::Minus => a.minus(b),
                            TokenType::Slash => a.divided_by(b),
                            _ => a.times(b),
                        },
                    ),
                ),
            }
        },
        TokenType::Greater | TokenType::GreaterEqual | TokenType::Less | TokenType::LessEqual => {
            match number_operands(kind, &left, &right) {
                Err(e) => Err(e),
                Ok((a, b)) => Ok(
                    EvaluatedExpr::Boolean(
                        match kind {
                            TokenType::Greater => a.greater_than(b),
                            TokenType::GreaterEqual => a.greater_or_equal(b),
                            TokenType::Less => a.less_than(b),
                            _ => a.less_or_equal(b),
                        },
                    ),
                ),
            }
        },
        TokenType::Plus => match left {
            EvaluatedExpr::Number(a) => match right {
                EvaluatedExpr::Number(b) => Ok(EvaluatedExpr::Number(a.plus(b))),
                _ => Err(InterpreterError::TypeError { operator: kind, operand: Operand::Right }),
            },
            EvaluatedExpr::String(a) => match right {
                EvaluatedExpr::String(b) => Ok(EvaluatedExpr::String(a.concat(b.as_str()))),
                _ => Err(InterpreterError::TypeError { operator: kind, operand: Operand::Right }),
            },
            _ => Err(InterpreterError::TypeError { operator: kind, operand: Operand::Left }),
        },
        TokenType::EqualEqual => Ok(EvaluatedExpr::Boolean(values_equal(&left, &right))),
        TokenType::BangEqual => Ok(EvaluatedExpr::Boolean(!values_equal(&left, &right))),
        t => Err(InterpreterError::UnsupportedOperator(t)),
    }
}

/// `v` reports the lexical errors `es`, in order.
pub open spec fn reports_scan_errors(v: Seq<FacingRoxError>, es: Seq<ScanErrorModel>) -> bool {
    &&& v.len() == es.len()
    &&& forall|k: int|
        0 <= k < v.len() ==> (#[trigger] v[k] matches FacingRoxError::ScannerError(e) && e@
            == es[k])
}

/// `v` reports the parse errors `es`, in order.
pub open spec fn reports_parse_errors(v: Seq<FacingRoxError>, es: Seq<ParseErrorModel>) -> bool {
    &&& v.len() == es.len()
    &&& forall|k: int|
        0 <= k < v.len() ==> (#[trigger] v[k] matches FacingRoxError::ParserError(e) && e@
            == es[k])
}

/// The runtime outcome that a run's result reports: success, or exactly one
/// runtime error.
pub open spec fn reports_runtime_outcome(
    r: Result<(), Vec<FacingRoxError>>,
    outcome: Result<(), InterpreterError>,
) -> bool {
    match outcome {
        Ok(_) => r is Ok,
        Err(e) => r matches Err(v) && v@ == seq![FacingRoxError::InterpreterError(e)],
    }
}

/// Tree-walking evaluator: one environment for the whole run, and the lines
/// that `print` statements wrote.
pub struct Interpreter<N> {
    environment: Environment<N>,
    output: Vec<String>,
}

impl<N: Number> Interpreter<N> {
    /// The bindings of every scope, global first.
    pub closed spec fn scopes(&self) -> Scopes<N> {
        self.environment@
    }

    /// The lines printed so far and not yet taken.
    pub closed spec fn printed(&self) -> Seq<Seq<char>> {
        self.output@.map_values(|s: String| s@)
    }

    pub closed spec fn wf(&self) -> bool {
        self.environment.wf()
    }

    /// An interpreter with an empty global scope and nothing printed.
    pub fn new() -> (r: Interpreter<N>)
        ensures
            r.wf(),
            r.scopes() == seq![Map::<Seq<char>, EvaluatedExpr<N>>::empty()],
            r.printed() == Seq::<Seq<char>>::empty(),
    {
        let r = Interpreter { environment: Environment::new(), output: Vec::new() };
        assert(r.printed() =~= Seq::<Seq<char>>::empty());
        r
    }

    /// Executes `statements` in order against the interpreter's environment;
    /// the first runtime error stops the run and is returned.
    pub fn interpret(&mut self, statements: &[Statement]) -> (r: Result<(), InterpreterError>)
        requires
            old(self).wf(),
        ensures
            final(self).wf(),
            executes_all(
                statements_model(statements@),
                old(self).scopes(),
                old(self).printed(),
                final(self).scopes(),
                final(self).printed(),
                r,
            ),
    {
        let r = self.execute_from(statements, 0);
        assert(statements_model(statements@).subrange(0, statements@.len() as int)
            =~= statements_model(statements@)) by {
            lemma_statements_model_index(statements@);
        }
        r
    }

    /// Scans, parses and executes `buffer`. Lexical errors, else parse
    /// errors, are all reported and nothing runs; otherwise the statements
    /// run, and a runtime error is reported alone.
    pub fn run(&mut self, buffer: &str) -> (r: Result<(), Vec<FacingRoxError>>)
        requires
            old(self).wf(),
        ensures
            final(self).wf(),
            match lex(buffer@) {
                Err(es) => {
                    &&& r matches Err(v) && reports_scan_errors(v@, es)
                    &&& final(self).scopes() == old(self).scopes()
                    &&& final(self).printed() == old(self).printed()
                },
                Ok(ts) => exists|t: Seq<Token>|
                    #[trigger] intermediate(t) && t.map_values(|x: Token| x@) == ts && match parse_tokens(
                        t,
                    ) {
                        Err(es) => {
                            &&& r matches Err(v) && reports_parse_errors(v@, es)
                            &&& final(self).scopes() == old(self).scopes()
                            &&& final(self).printed() == old(self).printed()
                        },
                        Ok(ss) => exists|outcome: Result<(), InterpreterError>|
                            #[trigger] intermediate(outcome) && executes_all(
                                ss,
                                old(self).scopes(),
                                old(self).printed(),
                                final(self).scopes(),
                                final(self).printed(),
                                outcome,
                            ) && reports_runtime_outcome(r, outcome),
                    },
            },
    {
        let tokens = match scan(buffer) {
            Err(errors) => {
                let r = from_scanner_errors(errors);
                return Err(r);
            },
            Ok(tokens) => tokens,
        };
        let ghost t = tokens@;
        assert(intermediate(t));
        let statements = match parse(tokens) {
            Err(errors) => {
                let r = from_parser_errors(errors);
                return Err(r);
            },
            Ok(statements) => statements,
        };
        let outcome = self.interpret(statements.as_slice());
        assert(intermediate(outcome));
        match outcome {
            Ok(()) => Ok(()),
            Err(e) => {
                let mut v: Vec<FacingRoxError> = Vec::new();
                v.push(FacingRoxError::InterpreterError(e));
                assert(v@ =~= seq![FacingRoxError::InterpreterError(e)]);
                Err(v)
            },
        }
    }

    /// Hands out the printed lines, oldest first, and forgets them.
    pub fn take_output(&mut self) -> (r: Vec<String>)
        requires
            old(self).wf(),
        ensures
            final(self).wf(),
            r@.map_values(|s: String| s@) == old(self).printed(),
            final(self).printed() == Seq::<Seq<char>>::empty(),
            final(self).scopes() == old(self).scopes(),
    {
        let mut out: Vec<String> = Vec::new();
        std::mem::swap(&mut out, &mut self.output);
        assert(self.printed() =~= Seq::<Seq<char>>::empty());
        out
    }

    /// Executes `statements[i..]` in order, stopping at the first error.
    fn execute_from(&mut self, statements: &[Statement], i: usize) -> (r: Result<
        (),
        InterpreterError,
    >)
        requires
            old(self).wf(),
            i <= statements@.len(),
        ensures
            final(self).wf(),
            final(self).scopes().len() == old(self).scopes().len(),
            executes_all(
                statements_model(statements@).subrange(i as int, statements@.len() as int),
                old(self).scopes(),
                old(self).printed(),
                final(self).scopes(),
                final(self).printed(),
                r,
            ),
        decreases statements@, statements@.len() - i,
    {
        proof {
            lemma_statements_model_index(statements@);
        }
        let ghost all = statements_model(statements@);
        let ghost rest = all.subrange(i as int, statements@.len() as int);
        if i == statements.len() {
            assert(rest.len() == 0);
            return Ok(());
        }
        assert(rest[0] == statement_model(statements@[i as int]));
        assert(rest.drop_first() =~= all.subrange(i + 1, statements@.len() as int));
        let r0 = self.execute(&statements[i]);
        let ghost sm = self.scopes();
        let ghost om = self.printed();
        assert(intermediate((sm, om, r0)));
        match r0 {
            Err(e) => Err(e),
            Ok(()) => self.execute_from(statements, i + 1),
        }
    }

    /// Executes one statement.
    fn execute(&mut self, statement: &Statement) -> (r: Result<(), InterpreterError>)
        requires
            old(self).wf(),
        ensures
            final(self).wf(),
            final(self).scopes().len() == old(self).scopes().len(),
            executes(
                statement@,
                old(self).scopes(),
                old(self).printed(),
                final(self).scopes(),
                final(self).printed(),
                r,
            ),
        decreases statement, 0int,
    {
        match statement {
            Statement::Expression(s) => {
                let rv = self.evaluate(&s.expr);
                assert(intermediate(rv));
                match rv {
                    Ok(_) => Ok(()),
                    Err(e) => Err(e),
                }
            },
            Statement::Print(s) => {
                let rv = self.evaluate(&s.expr);
                assert(intermediate(rv));
                match rv {
                    Ok(v) => {
                        let ghost before = self.printed();
                        let text = render(v);
                        self.output.push(text);
                        assert(self.printed().drop_last() =~= before);
                        Ok(())
                    },
                    Err(e) => Err(e),
                }
            },
            Statement::Variable(v) => {
                let value = match &v.initializer {
                    None => EvaluatedExpr::Nil,
                    Some(init) => {
                        let rv = self.evaluate(init);
                        let ghost sm = self.scopes();
                        assert(intermediate((sm, rv)));
                        match rv {
                            Ok(x) => x,
                            Err(e) => {
                                return Err(e);
                            },
                        }
                    },
                };
                self.environment.define(v.name.lexeme.clone(), value);
                Ok(())
            },
            Statement::Block(b) => {
                self.environment.push_scope();
                let r = self.execute_from(b.statements.as_slice(), 0);
                let ghost sm = self.scopes();
                proof {
                    lemma_statements_model_index(b.statements@);
                    assert(statements_model(b.statements@).subrange(
                        0,
                        b.statements@.len() as int,
                    ) =~= statements_model(b.statements@));
                }
                assert(intermediate(sm));
                self.environment.pop_scope();
                r
            },
        }
    }

    /// Evaluates one expression.
    fn evaluate(&mut self, expr: &Expr) -> (r: Result<EvaluatedExpr<N>, InterpreterError>)
        requires
            old(self).wf(),
        ensures
            final(self).wf(),
            final(self).output == old(self).output,
            final(self).scopes().len() == old(self).scopes().len(),
            evaluates(*expr, old(self).scopes(), final(self).scopes(), r),
        decreases expr,
    {
        match expr {
            Expr::Literal(l) => {
                let v = match l {
                    Literal::Boolean(b) => EvaluatedExpr::Boolean(*b),
                    Literal::String(s) => EvaluatedExpr::String(s.clone()),
                    Literal::Nil => EvaluatedExpr::Nil,
                    Literal::Number(lexeme) => EvaluatedExpr::Number(
                        N::from_lexeme(lexeme),
                    ),
                };
                Ok(v)
            },
            Expr::Grouping(g) => {
                let r = self.evaluate(&g.expr);
                r
            },
            Expr::Variable(v) => {
                let r = self.environment.get(&v.name);
                r
            },
            Expr::Assign(a) => {
                let rv = self.evaluate(&a.value);
                let ghost sm = self.scopes();
                match rv {
                    Err(e) => {
                        assert(intermediate((sm, rv)));
                        Err(e)
                    },
                    Ok(v) => {
                        proof {
                            lemma_assigned_len(sm, a.name.lexeme@, v);
                        }
                        let r = match self.environment.assign(&a.name, v.duplicate()) {
                            Ok(()) => Ok(v),
                            Err(e) => Err(e),
                        };
                        assert(intermediate((sm, rv)));
                        r
                    },
                }
            },
            Expr::Unary(u) => {
                let rv = self.evaluate(&u.expr);
                let r = match rv {
                    Err(e) => Err(e),
                    Ok(v) => apply_unary(&u.op, v),
                };
                assert(intermediate(rv));
                r
            },
            Expr::Binary(b) => {
                let ra = self.evaluate(&b.left);
                let ghost sm = self.scopes();
                match ra {
                    Err(e) => {
                        assert(intermediate((sm, ra)));
                        Err(e)
                    },
                    Ok(left) => {
                        let rb = self.evaluate(&b.right);
                        let r = match rb {
                            Err(e) => Err(e),
                            Ok(right) => apply_binary(&b.op, left, right),
                        };
                        assert(intermediate((sm, ra)));
                        assert(intermediate(rb));
                        r
                    },
                }
            },
        }
    }
}

} // verus!
