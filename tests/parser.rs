use rox::ast::{Expr, Literal, Statement};
use rox::{parse, scan, Parser, Token, TokenType};

fn statements(source: &str) -> Vec<Statement> {
    parse(scan(source).unwrap()).unwrap()
}

fn errors(source: &str) -> Vec<(usize, String, String)> {
    parse(scan(source).unwrap())
        .unwrap_err()
        .into_iter()
        .map(|e| (e.token.line, e.token.lexeme, e.msg))
        .collect()
}

fn expression_of(statement: &Statement) -> &Expr {
    match statement {
        Statement::Expression(s) => &s.expr,
        Statement::Print(s) => &s.expr,
        other => panic!("not an expression statement: {:?}", other),
    }
}

fn number(e: &Expr) -> &str {
    match e {
        Expr::Literal(Literal::Number(n)) => n,
        other => panic!("not a number: {:?}", other),
    }
}

#[test]
fn empty_input_parses_to_no_statements() {
    let parsed = Parser::new(scan("").unwrap()).parse().unwrap();
    assert!(parsed.is_empty());
}

#[test]
fn multiplication_binds_tighter_than_addition() {
    let parsed = statements("1 + 2 * 3;");
    match expression_of(&parsed[0]) {
        Expr::Binary(b) => {
            assert_eq!(b.op.token_type, TokenType::Plus);
            assert_eq!(number(&b.left), "1");
            match b.right.as_ref() {
                Expr::Binary(inner) => {
                    assert_eq!(inner.op.token_type, TokenType::Star);
                    assert_eq!(number(&inner.left), "2");
                    assert_eq!(number(&inner.right), "3");
                }
                other => panic!("unexpected {:?}", other),
            }
        }
        other => panic!("unexpected {:?}", other),
    }
}

#[test]
fn subtraction_is_left_associative() {
    let parsed = statements("8 - 4 - 2;");
    match expression_of(&parsed[0]) {
        Expr::Binary(b) => {
            assert_eq!(number(&b.right), "2");
            match b.left.as_ref() {
                Expr::Binary(inner) => {
                    assert_eq!(number(&inner.left), "8");
                    assert_eq!(number(&inner.right), "4");
                }
                other => panic!("unexpected {:?}", other),
            }
        }
        other => panic!("unexpected {:?}", other),
    }
}

#[test]
fn assignment_is_right_associative() {
    let parsed = statements("a = b = 1;");
    match expression_of(&parsed[0]) {
        Expr::Assign(a) => {
            assert_eq!(a.name.lexeme, "a");
            match a.value.as_ref() {
                Expr::Assign(inner) => {
                    assert_eq!(inner.name.lexeme, "b");
                    assert_eq!(number(&inner.value), "1");
                }
                other => panic!("unexpected {:?}", other),
            }
        }
        other => panic!("unexpected {:?}", other),
    }
}

#[test]
fn declarations_blocks_and_groupings() {
    let parsed = statements("var x; var y = (1); { print !-x; }");
    assert_eq!(parsed.len(), 3);
    match &parsed[0] {
        Statement::Variable(v) => {
            assert_eq!(v.name.lexeme, "x");
            assert!(v.initializer.is_none());
        }
        other => panic!("unexpected {:?}", other),
    }
    match &parsed[1] {
        Statement::Variable(v) => match v.initializer.as_ref().unwrap() {
            Expr::Grouping(g) => assert_eq!(number(&g.expr), "1"),
            other => panic!("unexpected {:?}", other),
        },
        other => panic!("unexpected {:?}", other),
    }
    match &parsed[2] {
        Statement::Block(b) => {
            assert_eq!(b.statements.len(), 1);
            match expression_of(&b.statements[0]) {
                Expr::Unary(u) => {
                    assert_eq!(u.op.token_type, TokenType::Bang);
                    assert!(matches!(u.expr.as_ref(), Expr::Unary(_)));
                }
                other => panic!("unexpected {:?}", other),
            }
        }
        other => panic!("unexpected {:?}", other),
    }
}

#[test]
fn literals_of_every_kind() {
    let parsed = statements("true; false; nil; \"s\"; 4.5;");
    let literals: Vec<String> = parsed
        .iter()
        .map(|s| match expression_of(s) {
            Expr::Literal(Literal::Boolean(b)) => format!("bool {}", b),
            Expr::Literal(Literal::Nil) => "nil".to_string(),
            Expr::Literal(Literal::String(s)) => format!("string {}", s),
            Expr::Literal(Literal::Number(n)) => format!("number {}", n),
            other => panic!("unexpected {:?}", other),
        })
        .collect();
    assert_eq!(literals, vec!["bool true", "bool false", "nil", "string s", "number 4.5"]);
}

#[test]
fn missing_expression_is_reported_at_the_token() {
    assert_eq!(errors("print ;"), vec![(0, ";".to_string(), "Expected expression".to_string())]);
}

#[test]
fn invalid_assignment_target_is_reported_at_the_equal_sign() {
    assert_eq!(
        errors("1 = 2;"),
        vec![(0, "=".to_string(), "Invalid assignment target".to_string())]
    );
}

#[test]
fn recovery_collects_one_error_per_broken_statement() {
    let found = errors("var = 1;\nprint 2;\nprint (3;\nvar ok = 4;");
    assert_eq!(
        found,
        vec![
            (0, "=".to_string(), "Expected variable name".to_string()),
            (2, ";".to_string(), "Expect ')' after expression.".to_string()),
        ]
    );
}

#[test]
fn missing_semicolon_and_brace_are_reported() {
    assert_eq!(
        errors("print 1"),
        vec![(0, "".to_string(), "Expect ';' after value.".to_string())]
    );
    assert_eq!(
        errors("{ print 1;"),
        vec![(0, "".to_string(), "Expect '}' after block.".to_string())]
    );
    assert_eq!(
        errors("var a = 1"),
        vec![(0, "".to_string(), "Expected ';' after variable declaration".to_string())]
    );
    assert_eq!(
        errors("a"),
        vec![(0, "".to_string(), "Expect ';' after expression.".to_string())]
    );
}

#[test]
fn tokens_built_by_hand_parse_too() {
    let tokens = vec![
        Token::new(TokenType::Print, "print".into(), 0),
        Token::new(TokenType::Nil, "nil".into(), 0),
        Token::new(TokenType::Semicolon, ";".into(), 0),
        Token::new(TokenType::Eof, "".into(), 0),
    ];
    let parsed = parse(tokens).unwrap();
    assert!(matches!(expression_of(&parsed[0]), Expr::Literal(Literal::Nil)));
}

#[test]
fn parser_construction_takes_any_token_list() {
    let _empty = Parser::new(Vec::new());
    let _no_end = Parser::new(vec![Token::new(TokenType::Nil, "nil".into(), 0)]);
}
