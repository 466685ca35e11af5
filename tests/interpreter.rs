use rox::interpreter::{apply_binary, apply_unary, is_truthy, render, values_equal};
use rox::{
    parse, scan, EvaluatedExpr, FacingRoxError, Interpreter, InterpreterError, Number, Operand,
    Token, TokenType,
};

/// Double-precision numbers, as the language's runtime uses them.
#[derive(Clone, Copy, Debug, PartialEq)]
struct Num(f64);

impl Number for Num {
    // Outside Verus each `spec_` function is the matching operation.
    fn spec_from_lexeme(lexeme: String) -> Self {
        Self::from_lexeme(&lexeme)
    }
    fn spec_plus(self, other: Self) -> Self {
        self.plus(other)
    }
    fn spec_minus(self, other: Self) -> Self {
        self.minus(other)
    }
    fn spec_times(self, other: Self) -> Self {
        self.times(other)
    }
    fn spec_divided_by(self, other: Self) -> Self {
        self.divided_by(other)
    }
    fn spec_negated(self) -> Self {
        self.negated()
    }
    fn spec_less_than(self, other: Self) -> bool {
        self.less_than(other)
    }
    fn spec_less_or_equal(self, other: Self) -> bool {
        self.less_or_equal(other)
    }
    fn spec_greater_than(self, other: Self) -> bool {
        self.greater_than(other)
    }
    fn spec_greater_or_equal(self, other: Self) -> bool {
        self.greater_or_equal(other)
    }
    fn spec_equals(self, other: Self) -> bool {
        self.equals(other)
    }
    fn spec_render(self) -> String {
        self.render()
    }

    fn from_lexeme(lexeme: &String) -> Self {
        Num(lexeme.parse().unwrap())
    }
    fn plus(self, other: Self) -> Self {
        Num(self.0 + other.0)
    }
    fn minus(self, other: Self) -> Self {
        Num(self.0 - other.0)
    }
    fn times(self, other: Self) -> Self {
        Num(self.0 * other.0)
    }
    fn divided_by(self, other: Self) -> Self {
        Num(self.0 / other.0)
    }
    fn negated(self) -> Self {
        Num(-self.0)
    }
    fn less_than(self, other: Self) -> bool {
        self.0 < other.0
    }
    fn less_or_equal(self, other: Self) -> bool {
        self.0 <= other.0
    }
    fn greater_than(self, other: Self) -> bool {
        self.0 > other.0
    }
    fn greater_or_equal(self, other: Self) -> bool {
        self.0 >= other.0
    }
    fn equals(self, other: Self) -> bool {
        self.0 == other.0
    }
    fn render(self) -> String {
        self.0.to_string()
    }
}

fn run(source: &str) -> (Result<(), Vec<FacingRoxError>>, Vec<String>) {
    let mut interpreter = Interpreter::<Num>::new();
    let result = interpreter.run(source);
    (result, interpreter.take_output())
}

fn runtime_error(result: Result<(), Vec<FacingRoxError>>) -> InterpreterError {
    match result {
        Err(mut errors) => {
            assert_eq!(errors.len(), 1);
            match errors.remove(0) {
                FacingRoxError::InterpreterError(e) => e,
                other => panic!("not a runtime error: {:?}", other),
            }
        }
        Ok(()) => panic!("the run succeeded"),
    }
}

fn op(kind: TokenType, lexeme: &str) -> Token {
    Token::new(kind, lexeme.to_string(), 0)
}

#[test]
fn multiplication_before_addition() {
    let (result, out) = run("print 1 + 2 * 3;");
    assert!(result.is_ok());
    assert_eq!(out, vec!["7"]);
}

#[test]
fn subtraction_groups_to_the_left() {
    let (result, out) = run("print 8 - 4 - 2;");
    assert!(result.is_ok());
    assert_eq!(out, vec!["2"]);
}

#[test]
fn adding_number_and_string_is_a_type_error() {
    let (result, out) = run("print 1 + \"a\";");
    assert_eq!(
        runtime_error(result),
        InterpreterError::TypeError { operator: TokenType::Plus, operand: Operand::Right }
    );
    assert!(out.is_empty());
    let (result, _) = run("print \"a\" + 1;");
    assert_eq!(
        runtime_error(result),
        InterpreterError::TypeError { operator: TokenType::Plus, operand: Operand::Right }
    );
    let (result, _) = run("print nil + 1;");
    assert_eq!(
        runtime_error(result),
        InterpreterError::TypeError { operator: TokenType::Plus, operand: Operand::Left }
    );
}

#[test]
fn block_scope_shadows_and_ends() {
    let (result, out) = run("var x = 1; { var x = 2; print x; } print x;");
    assert!(result.is_ok());
    assert_eq!(out, vec!["2", "1"]);
}

#[test]
fn reading_an_undeclared_variable_fails() {
    let (result, out) = run("print y;");
    assert_eq!(runtime_error(result), InterpreterError::UndefinedVariable("y".to_string()));
    assert!(out.is_empty());
}

#[test]
fn assigning_an_undeclared_variable_fails_and_declares_nothing() {
    let mut interpreter = Interpreter::<Num>::new();
    let result = interpreter.run("x = 1;");
    assert_eq!(runtime_error(result), InterpreterError::UndefinedVariable("x".to_string()));
    let again = interpreter.run("print x;");
    assert_eq!(runtime_error(again), InterpreterError::UndefinedVariable("x".to_string()));
}

#[test]
fn assignment_changes_the_owning_scope() {
    let (result, out) = run("var a = 1; { a = 5; var b = a = 6; print b; } print a;");
    assert!(result.is_ok());
    assert_eq!(out, vec!["6", "6"]);
}

#[test]
fn block_scope_is_dropped_after_an_error() {
    let mut interpreter = Interpreter::<Num>::new();
    let result = interpreter.run("var v = \"outer\"; { var v = \"inner\"; print -v; }");
    assert_eq!(
        runtime_error(result),
        InterpreterError::TypeError { operator: TokenType::Minus, operand: Operand::Right }
    );
    assert!(interpreter.run("print v;").is_ok());
    assert_eq!(interpreter.take_output(), vec!["outer"]);
}

#[test]
fn first_runtime_error_stops_the_run() {
    let (result, out) = run("print 1; print -\"s\"; print 2;");
    assert!(matches!(runtime_error(result), InterpreterError::TypeError { .. }));
    assert_eq!(out, vec!["1"]);
}

#[test]
fn empty_program_does_nothing() {
    let (result, out) = run("");
    assert!(result.is_ok());
    assert!(out.is_empty());
    let tokens = scan("").unwrap();
    assert!(parse(tokens).unwrap().is_empty());
}

#[test]
fn printing_renders_each_kind() {
    let (result, out) = run(
        "print nil; print true; print false; print \"hi\"; print 2.5; print \"a\" + \"b\"; var u; print u;",
    );
    assert!(result.is_ok());
    assert_eq!(out, vec!["nil", "true", "false", "hi", "2.5", "ab", "nil"]);
}

#[test]
fn truthiness_and_negation() {
    let (result, out) = run("print !nil; print !false; print !0; print !\"\"; print !true;");
    assert!(result.is_ok());
    assert_eq!(out, vec!["true", "true", "false", "false", "false"]);
}

#[test]
fn equality_never_errors_across_types() {
    let (result, out) = run(
        "print 1 == 1; print 1 == \"1\"; print nil == nil; print nil == false; print \"a\" != \"b\"; print 1 != 2;",
    );
    assert!(result.is_ok());
    assert_eq!(out, vec!["true", "false", "true", "false", "true", "true"]);
}

#[test]
fn comparisons_need_numbers() {
    let (result, out) = run("print 1 < 2; print 2 <= 2; print 3 > 4; print 3 >= 4;");
    assert!(result.is_ok());
    assert_eq!(out, vec!["true", "true", "false", "false"]);
    let (result, _) = run("print \"a\" < 1;");
    assert_eq!(
        runtime_error(result),
        InterpreterError::TypeError { operator: TokenType::Less, operand: Operand::Left }
    );
    let (result, _) = run("print 1 >= true;");
    assert_eq!(
        runtime_error(result),
        InterpreterError::TypeError { operator: TokenType::GreaterEqual, operand: Operand::Right }
    );
}

#[test]
fn division_by_zero_follows_the_number_system() {
    let (result, out) = run("print 1 / 0; print -1 / 0; print 6 / 4;");
    assert!(result.is_ok());
    assert_eq!(out, vec!["inf", "-inf", "1.5"]);
}

#[test]
fn zero_over_zero_is_not_a_number() {
    let (result, out) = run("print 0 / 0; print (0 / 0) == (0 / 0); print nil == (0 / 0);");
    assert!(result.is_ok());
    assert_eq!(out, vec!["NaN", "false", "false"]);
}

#[test]
fn lexical_and_parse_errors_are_all_reported() {
    let (result, out) = run("@ print 1; #");
    match result {
        Err(errors) => {
            assert_eq!(errors.len(), 2);
            assert!(errors.iter().all(|e| matches!(e, FacingRoxError::ScannerError(_))));
        }
        Ok(()) => panic!("expected lexical errors"),
    }
    assert!(out.is_empty());
    let (result, out) = run("print ; print 1; var = 2;");
    match result {
        Err(errors) => {
            assert_eq!(errors.len(), 2);
            assert!(errors.iter().all(|e| matches!(e, FacingRoxError::ParserError(_))));
        }
        Ok(()) => panic!("expected parse errors"),
    }
    assert!(out.is_empty());
}

#[test]
fn interpret_runs_parsed_statements() {
    let statements = parse(scan("var a = \"x\"; print a + a;").unwrap()).unwrap();
    let mut interpreter = Interpreter::<Num>::new();
    assert!(interpreter.interpret(&statements).is_ok());
    assert_eq!(interpreter.take_output(), vec!["xx"]);
    assert!(interpreter.take_output().is_empty());
}

#[test]
fn operators_applied_directly() {
    let plus = op(TokenType::Plus, "+");
    assert_eq!(
        apply_binary(&plus, EvaluatedExpr::Number(Num(2.0)), EvaluatedExpr::Number(Num(3.0))),
        Ok(EvaluatedExpr::Number(Num(5.0)))
    );
    assert_eq!(
        apply_binary(
            &plus,
            EvaluatedExpr::<Num>::String("ab".into()),
            EvaluatedExpr::String("cd".into())
        ),
        Ok(EvaluatedExpr::String("abcd".into()))
    );
    let star = op(TokenType::Star, "*");
    assert_eq!(
        apply_binary(&star, EvaluatedExpr::Boolean(true), EvaluatedExpr::Number(Num(3.0))),
        Err(InterpreterError::TypeError { operator: TokenType::Star, operand: Operand::Left })
    );
    let comma = op(TokenType::Comma, ",");
    assert_eq!(
        apply_binary(&comma, EvaluatedExpr::<Num>::Nil, EvaluatedExpr::Nil),
        Err(InterpreterError::UnsupportedOperator(TokenType::Comma))
    );
    assert_eq!(
        apply_unary(&op(TokenType::Minus, "-"), EvaluatedExpr::Number(Num(4.0))),
        Ok(EvaluatedExpr::Number(Num(-4.0)))
    );
    assert_eq!(
        apply_unary(&comma, EvaluatedExpr::<Num>::Nil),
        Err(InterpreterError::UnsupportedOperator(TokenType::Comma))
    );
}

#[test]
fn value_helpers() {
    assert!(!is_truthy(&EvaluatedExpr::<Num>::Nil));
    assert!(is_truthy(&EvaluatedExpr::Number(Num(0.0))));
    assert!(values_equal(&EvaluatedExpr::Number(Num(1.0)), &EvaluatedExpr::Number(Num(1.0))));
    assert!(!values_equal(&EvaluatedExpr::Number(Num(1.0)), &EvaluatedExpr::Boolean(true)));
    assert_eq!(render(EvaluatedExpr::<Num>::Boolean(false)), "false");
    assert_eq!(render(EvaluatedExpr::Number(Num(7.0))), "7");
}
