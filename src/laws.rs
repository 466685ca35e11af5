use vstd::prelude::*;

use crate::ast::{Assign, Expr, StatementModel, Variable};
use crate::environment::{assigned, lemma_owner_bound, owner, Scopes};
use crate::scanner::{lex, scan_outcome_is, ScannerError};
use crate::environment::defined;
use crate::semantics::{
    binary_outcome, evaluates, executes, executes_all, intermediate, is_number, type_error,
};
use crate::token::{Token, TokenType};
use crate::value::{EvaluatedExpr, InterpreterError, Number, Operand};

verus! {

/// Scanning is a function of the source: two scans of the same characters
/// both succeed with the same (kind, lexeme, line) sequence, or both fail
/// with the same errors.
pub proof fn lemma_scan_deterministic(
    source: Seq<char>,
    first: Result<Vec<Token>, Vec<ScannerError>>,
    second: Result<Vec<Token>, Vec<ScannerError>>,
)
    requires
        scan_outcome_is(first, lex(source)),
        scan_outcome_is(second, lex(source)),
    ensures
        first is Ok <==> second is Ok,
        first matches Ok(a) ==> second matches Ok(b) && a@.map_values(|t: Token| t@)
            == b@.map_values(|t: Token| t@),
        first matches Err(a) ==> second matches Err(b) && a@.map_values(|e: ScannerError| e@)
            == b@.map_values(|e: ScannerError| e@),
{
}

/// `+` never converts between types: a number plus a string, or a string
/// plus a number, is a type error on the right operand.
pub proof fn lemma_plus_never_coerces<N: Number>(
    left: EvaluatedExpr<N>,
    right: EvaluatedExpr<N>,
    r: Result<EvaluatedExpr<N>, InterpreterError>,
)
    requires
        (is_number(left) && right is String) || (left is String && is_number(right)),
        binary_outcome(TokenType::Plus, left, right, r),
    ensures
        r == type_error::<N>(TokenType::Plus, Operand::Right),
{
}

/// Reading a name that no scope binds fails with an undefined-variable error
/// naming it, and changes nothing.
pub proof fn lemma_undefined_read<N: Number>(
    name: Token,
    s0: Scopes<N>,
    s1: Scopes<N>,
    r: Result<EvaluatedExpr<N>, InterpreterError>,
)
    requires
        owner(s0, name.lexeme@) is None,
        evaluates(Expr::Variable(Variable { name }), s0, s1, r),
    ensures
        r == Err::<EvaluatedExpr<N>, InterpreterError>(
            InterpreterError::UndefinedVariable(name.lexeme),
        ),
        s1 == s0,
{
}

/// Two scope stacks of the same depth whose scopes bind the same names.
pub open spec fn same_names<N: Number>(s: Scopes<N>, t: Scopes<N>) -> bool {
    &&& s.len() == t.len()
    &&& forall|i: int| 0 <= i < s.len() ==> #[trigger] s[i].dom() == t[i].dom()
}

proof fn lemma_owner_same_names<N: Number>(s: Scopes<N>, t: Scopes<N>, name: Seq<char>)
    requires
        same_names(s, t),
    ensures
        owner(s, name) == owner(t, name),
    decreases s.len(),
{
    if s.len() > 0 {
        assert(s.last().dom() == t.last().dom());
        assert(s.last().contains_key(name) == t.last().contains_key(name));
        lemma_owner_same_names(s.drop_last(), t.drop_last(), name);
    }
}

/// Evaluating an expression never adds or removes a binding: only `var`
/// declares.
pub proof fn lemma_evaluation_keeps_names<N: Number>(
    e: Expr,
    s0: Scopes<N>,
    s1: Scopes<N>,
    r: Result<EvaluatedExpr<N>, InterpreterError>,
)
    requires
        evaluates(e, s0, s1, r),
    ensures
        same_names(s0, s1),
    decreases e,
{
    match e {
        Expr::Literal(_) => {},
        Expr::Variable(_) => {},
        Expr::Grouping(g) => {
            lemma_evaluation_keeps_names(*g.expr, s0, s1, r);
        },
        Expr::Unary(u) => {
            let rv = choose|rv: Result<EvaluatedExpr<N>, InterpreterError>|
                #[trigger] intermediate(rv) && evaluates(*u.expr, s0, s1, rv) && match rv {
                    Err(err) => r == Err::<EvaluatedExpr<N>, InterpreterError>(err),
                    Ok(v) => crate::semantics::unary_outcome(u.op.token_type, v, r),
                };
            lemma_evaluation_keeps_names(*u.expr, s0, s1, rv);
        },
        Expr::Assign(a) => {
            let (sm, rv) = choose|sm: Scopes<N>, rv: Result<EvaluatedExpr<N>, InterpreterError>|
                #[trigger] intermediate((sm, rv)) && evaluates(*a.value, s0, sm, rv) && match rv {
                    Err(err) => s1 == sm && r == Err::<EvaluatedExpr<N>, InterpreterError>(err),
                    Ok(v) => if owner(sm, a.name.lexeme@) is Some {
                        s1 == assigned(sm, a.name.lexeme@, v) && r == Ok::<
                            EvaluatedExpr<N>,
                            InterpreterError,
                        >(v)
                    } else {
                        s1 == sm && r == Err::<EvaluatedExpr<N>, InterpreterError>(
                            InterpreterError::UndefinedVariable(a.name.lexeme),
                        )
                    },
                };
            lemma_evaluation_keeps_names(*a.value, s0, sm, rv);
            lemma_owner_bound(sm, a.name.lexeme@);
            if rv is Ok && owner(sm, a.name.lexeme@) is Some {
                let i = owner(sm, a.name.lexeme@)->0;
                assert forall|k: int| 0 <= k < s0.len() implies #[trigger] s0[k].dom()
                    == s1[k].dom() by {
                    if k == i {
                        assert(s1[k].dom() =~= sm[k].dom());
                    }
                }
            }
        },
        Expr::Binary(b) => {
            let (sm, ra) = choose|sm: Scopes<N>, ra: Result<EvaluatedExpr<N>, InterpreterError>|
                #[trigger] intermediate((sm, ra)) && evaluates(*b.left, s0, sm, ra) && match ra {
                    Err(err) => s1 == sm && r == Err::<EvaluatedExpr<N>, InterpreterError>(err),
                    Ok(va) => exists|rb: Result<EvaluatedExpr<N>, InterpreterError>|
                        #[trigger] intermediate(rb) && evaluates(*b.right, sm, s1, rb) && match rb {
                            Err(err) => r == Err::<EvaluatedExpr<N>, InterpreterError>(err),
                            Ok(vb) => binary_outcome(b.op.token_type, va, vb, r),
                        },
                };
            lemma_evaluation_keeps_names(*b.left, s0, sm, ra);
            if ra is Ok {
                let va = ra->Ok_0;
                let rb = choose|rb: Result<EvaluatedExpr<N>, InterpreterError>|
                    #[trigger] intermediate(rb) && evaluates(*b.right, sm, s1, rb) && match rb {
                        Err(err) => r == Err::<EvaluatedExpr<N>, InterpreterError>(err),
                        Ok(vb) => binary_outcome(b.op.token_type, va, vb, r),
                    };
                lemma_evaluation_keeps_names(*b.right, sm, s1, rb);
            }
        },
    }
}

/// Assignment never declares: assigning to a name that no scope binds
/// fails, and afterwards still no scope binds it.
pub proof fn lemma_assignment_never_declares<N: Number>(
    a: Assign,
    s0: Scopes<N>,
    s1: Scopes<N>,
    r: Result<EvaluatedExpr<N>, InterpreterError>,
)
    requires
        owner(s0, a.name.lexeme@) is None,
        evaluates(Expr::Assign(a), s0, s1, r),
    ensures
        r is Err,
        owner(s1, a.name.lexeme@) is None,
{
    lemma_evaluation_keeps_names(Expr::Assign(a), s0, s1, r);
    lemma_owner_same_names(s0, s1, a.name.lexeme@);
    let (sm, rv) = choose|sm: Scopes<N>, rv: Result<EvaluatedExpr<N>, InterpreterError>|
        #[trigger] intermediate((sm, rv)) && evaluates(*a.value, s0, sm, rv) && match rv {
            Err(err) => s1 == sm && r == Err::<EvaluatedExpr<N>, InterpreterError>(err),
            Ok(v) => if owner(sm, a.name.lexeme@) is Some {
                s1 == assigned(sm, a.name.lexeme@, v) && r == Ok::<
                    EvaluatedExpr<N>,
                    InterpreterError,
                >(v)
            } else {
                s1 == sm && r == Err::<EvaluatedExpr<N>, InterpreterError>(
                    InterpreterError::UndefinedVariable(a.name.lexeme),
                )
            },
        };
    lemma_evaluation_keeps_names(*a.value, s0, sm, rv);
    lemma_owner_same_names(s0, sm, a.name.lexeme@);
}

/// Two scope stacks of the same depth whose scopes, but perhaps the
/// innermost, bind the same names.
pub open spec fn same_outer_names<N: Number>(s: Scopes<N>, t: Scopes<N>) -> bool {
    &&& s.len() == t.len()
    &&& forall|i: int| 0 <= i < s.len() - 1 ==> #[trigger] s[i].dom() == t[i].dom()
}

proof fn lemma_statement_keeps_outer_names<N: Number>(
    st: StatementModel,
    s0: Scopes<N>,
    o0: Seq<Seq<char>>,
    s1: Scopes<N>,
    o1: Seq<Seq<char>>,
    r: Result<(), InterpreterError>,
)
    requires
        s0.len() >= 1,
        executes(st, s0, o0, s1, o1, r),
    ensures
        same_outer_names(s0, s1),
    decreases st,
{
    match st {
        StatementModel::Expression(e) => {
            let rv = choose|rv: Result<EvaluatedExpr<N>, InterpreterError>|
                #[trigger] intermediate(rv) && evaluates(e, s0, s1, rv) && o1 == o0 && match rv {
                    Ok(_) => r is Ok,
                    Err(err) => r == Err::<(), InterpreterError>(err),
                };
            lemma_evaluation_keeps_names(e, s0, s1, rv);
        },
        StatementModel::Print(e) => {
            let rv = choose|rv: Result<EvaluatedExpr<N>, InterpreterError>|
                #[trigger] intermediate(rv) && evaluates(e, s0, s1, rv) && match rv {
                    Ok(v) => r is Ok && o1.len() == o0.len() + 1 && o1.drop_last() == o0
                        && crate::semantics::renders(v, o1.last()),
                    Err(err) => o1 == o0 && r == Err::<(), InterpreterError>(err),
                };
            lemma_evaluation_keeps_names(e, s0, s1, rv);
        },
        StatementModel::Variable(name, init) => {
            match init {
                None => {
                    assert forall|i: int| 0 <= i < s0.len() - 1 implies #[trigger] s0[i].dom()
                        == s1[i].dom() by {
                        assert(s1[i] == s0[i]);
                    }
                },
                Some(e) => {
                    let (sm, rv) = choose|
                        sm: Scopes<N>,
                        rv: Result<EvaluatedExpr<N>, InterpreterError>,
                    |
                        #[trigger] intermediate((sm, rv)) && evaluates(e, s0, sm, rv) && match rv {
                            Ok(v) => s1 == defined(sm, name.lexeme@, v) && r is Ok,
                            Err(err) => s1 == sm && r == Err::<(), InterpreterError>(err),
                        };
                    lemma_evaluation_keeps_names(e, s0, sm, rv);
                    assert forall|i: int| 0 <= i < s0.len() - 1 implies #[trigger] s0[i].dom()
                        == s1[i].dom() by {
                        assert(s0[i].dom() == sm[i].dom());
                        assert(s1[i] == sm[i]);
                    }
                },
            }
        },
        StatementModel::Block(ss) => {
            let sm = choose|sm: Scopes<N>|
                #[trigger] intermediate(sm) && executes_all(ss, s0.push(Map::empty()), o0, sm, o1, r)
                    && s1 == sm.drop_last();
            lemma_statements_keep_outer_names(ss, s0.push(Map::empty()), o0, sm, o1, r);
            assert forall|i: int| 0 <= i < s0.len() - 1 implies #[trigger] s0[i].dom()
                == s1[i].dom() by {
                assert(s0.push(Map::empty())[i] == s0[i]);
                assert(s0.push(Map::empty())[i].dom() == sm[i].dom());
            }
        },
    }
}

proof fn lemma_statements_keep_outer_names<N: Number>(
    ss: Seq<StatementModel>,
    s0: Scopes<N>,
    o0: Seq<Seq<char>>,
    s1: Scopes<N>,
    o1: Seq<Seq<char>>,
    r: Result<(), InterpreterError>,
)
    requires
        s0.len() >= 1,
        executes_all(ss, s0, o0, s1, o1, r),
    ensures
        same_outer_names(s0, s1),
    decreases ss,
{
    if ss.len() > 0 {
        let (sm, om, r0) = choose|sm: Scopes<N>, om: Seq<Seq<char>>, r0: Result<(), InterpreterError>|
            #[trigger] intermediate((sm, om, r0)) && executes(ss[0], s0, o0, sm, om, r0) && match r0 {
                Ok(_) => executes_all(ss.drop_first(), sm, om, s1, o1, r),
                Err(err) => s1 == sm && o1 == om && r == Err::<(), InterpreterError>(err),
            };
        lemma_statement_keeps_outer_names(ss[0], s0, o0, sm, om, r0);
        if r0 is Ok {
            lemma_statements_keep_outer_names(ss.drop_first(), sm, om, s1, o1, r);
            assert forall|i: int| 0 <= i < s0.len() - 1 implies #[trigger] s0[i].dom()
                == s1[i].dom() by {
                assert(s0[i].dom() == sm[i].dom());
                assert(sm[i].dom() == s1[i].dom());
            }
        }
    }
}

/// A block's declarations end with it: executing a block, whatever its
/// outcome, leaves every scope binding the same names as before. (Values
/// may change through assignment.)
pub proof fn lemma_block_keeps_names<N: Number>(
    statements: Seq<StatementModel>,
    s0: Scopes<N>,
    o0: Seq<Seq<char>>,
    s1: Scopes<N>,
    o1: Seq<Seq<char>>,
    r: Result<(), InterpreterError>,
)
    requires
        executes(StatementModel::Block(statements), s0, o0, s1, o1, r),
    ensures
        same_names(s0, s1),
{
    let sm = choose|sm: Scopes<N>|
        #[trigger] intermediate(sm) && executes_all(statements, s0.push(Map::empty()), o0, sm, o1, r)
            && s1 == sm.drop_last();
    lemma_statements_keep_outer_names(statements, s0.push(Map::empty()), o0, sm, o1, r);
    assert forall|i: int| 0 <= i < s0.len() implies #[trigger] s0[i].dom() == s1[i].dom() by {
        assert(s0.push(Map::empty())[i] == s0[i]);
        assert(s0.push(Map::empty())[i].dom() == sm[i].dom());
    }
}

} // verus!
