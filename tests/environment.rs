use rox::{Environment, EvaluatedExpr, InterpreterError, Number, Token, TokenType};

#[derive(Clone, Copy, Debug, PartialEq)]
struct Int(i64);

impl Number for Int {
    // Outside Verus each `spec_` function is the matching operation.
    fn spec_from_lexeme(lexeme: String) -> Self {
        Self::from_lexeme(&lexeme)
    }
    fn spec_plus(self, other: Self) -> Self {
        self.plus(other)
    }
    fn spec_minus(self, other: Self) -> Self {
        self.minus(other)
    }
    fn spec_times(self, other: Self) -> Self {
        self.times(other)
    }
    fn spec_divided_by(self, other: Self) -> Self {
        self.divided_by(other)
    }
    fn spec_negated(self) -> Self {
        self.negated()
    }
    fn spec_less_than(self, other: Self) -> bool {
        self.less_than(other)
    }
    fn spec_less_or_equal(self, other: Self) -> bool {
        self.less_or_equal(other)
    }
    fn spec_greater_than(self, other: Self) -> bool {
        self.greater_than(other)
    }
    fn spec_greater_or_equal(self, other: Self) -> bool {
        self.greater_or_equal(other)
    }
    fn spec_equals(self, other: Self) -> bool {
        self.equals(other)
    }
    fn spec_render(self) -> String {
        self.render()
    }

    fn from_lexeme(lexeme: &String) -> Self {
        Int(lexeme.parse().unwrap())
    }
    fn plus(self, other: Self) -> Self {
        Int(self.0 + other.0)
    }
    fn minus(self, other: Self) -> Self {
        Int(self.0 - other.0)
    }
    fn times(self, other: Self) -> Self {
        Int(self.0 * other.0)
    }
    fn divided_by(self, other: Self) -> Self {
        Int(self.0 / other.0)
    }
    fn negated(self) -> Self {
        Int(-self.0)
    }
    fn less_than(self, other: Self) -> bool {
        self.0 < other.0
    }
    fn less_or_equal(self, other: Self) -> bool {
        self.0 <= other.0
    }
    fn greater_than(self, other: Self) -> bool {
        self.0 > other.0
    }
    fn greater_or_equal(self, other: Self) -> bool {
        self.0 >= other.0
    }
    fn equals(self, other: Self) -> bool {
        self.0 == other.0
    }
    fn render(self) -> String {
        self.0.to_string()
    }
}

fn name(s: &str) -> Token {
    Token::new(TokenType::Identifier, s.to_string(), 0)
}

fn num(n: i64) -> EvaluatedExpr<Int> {
    EvaluatedExpr::Number(Int(n))
}

#[test]
fn define_then_get() {
    let mut env = Environment::<Int>::new();
    env.define("a".to_string(), num(1));
    assert_eq!(env.get(&name("a")), Ok(num(1)));
    env.define("a".to_string(), num(2));
    assert_eq!(env.get(&name("a")), Ok(num(2)));
}

#[test]
fn get_of_unknown_name_fails() {
    let env = Environment::<Int>::new();
    assert_eq!(env.get(&name("zz")), Err(InterpreterError::UndefinedVariable("zz".to_string())));
}

#[test]
fn inner_scope_shadows_and_pop_restores() {
    let mut env = Environment::<Int>::new();
    env.define("x".to_string(), num(1));
    env.push_scope();
    env.define("x".to_string(), num(2));
    assert_eq!(env.get(&name("x")), Ok(num(2)));
    env.pop_scope();
    assert_eq!(env.get(&name("x")), Ok(num(1)));
}

#[test]
fn assign_updates_the_owning_scope_only() {
    let mut env = Environment::<Int>::new();
    env.define("x".to_string(), num(1));
    env.push_scope();
    assert_eq!(env.assign(&name("x"), num(9)), Ok(()));
    env.pop_scope();
    assert_eq!(env.get(&name("x")), Ok(num(9)));
}

#[test]
fn assign_never_creates_a_binding() {
    let mut env = Environment::<Int>::new();
    assert_eq!(
        env.assign(&name("q"), num(1)),
        Err(InterpreterError::UndefinedVariable("q".to_string()))
    );
    assert!(env.get(&name("q")).is_err());
}

#[test]
fn enclosing_environment_round_trip() {
    let mut outer = Environment::<Int>::new();
    outer.define("o".to_string(), EvaluatedExpr::String("out".to_string()));
    let mut inner = Environment::<Int>::new();
    inner.define("i".to_string(), EvaluatedExpr::Boolean(true));
    inner.set_enclosing(outer);
    assert_eq!(inner.get(&name("o")), Ok(EvaluatedExpr::String("out".to_string())));
    assert_eq!(inner.get(&name("i")), Ok(EvaluatedExpr::Boolean(true)));
    let back = inner.take_enclosing();
    assert_eq!(back.get(&name("o")), Ok(EvaluatedExpr::String("out".to_string())));
    assert!(back.get(&name("i")).is_err());
    assert!(inner.get(&name("o")).is_err());
    assert_eq!(inner.get(&name("i")), Ok(EvaluatedExpr::Boolean(true)));
}
