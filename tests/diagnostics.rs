use rox::{parse, scan, InterpreterError, Operand, ParserError, ScannerError, Token, TokenType};

#[test]
fn parse_error_at_a_token() {
    let e = ParserError::new(Token::new(TokenType::Semicolon, ";".into(), 12), "Expected expression".into());
    assert_eq!(e.diagnostic(), "[line 12] ParseError: Expected expression");
}

#[test]
fn parse_error_at_end_of_input() {
    let errors = parse(scan("print 1").unwrap()).unwrap_err();
    assert_eq!(errors[0].diagnostic(), "[line 0] ParseError: Expect ';' after value.");
}

#[test]
fn scanner_error_line() {
    let e = ScannerError::new(305, "Unexpected character".into());
    assert_eq!(e.diagnostic(), "[line 305] SyntaxError: Unexpected character");
    let e = ScannerError::new(0, "Unterminated string.".into());
    assert_eq!(e.diagnostic(), "[line 0] SyntaxError: Unterminated string.");
}

#[test]
fn runtime_error_lines() {
    assert_eq!(
        InterpreterError::TypeError { operator: TokenType::Plus, operand: Operand::Right }.diagnostic(),
        "TypeError: right operand of '+' has the wrong type"
    );
    assert_eq!(
        InterpreterError::TypeError { operator: TokenType::LessEqual, operand: Operand::Left }
            .diagnostic(),
        "TypeError: left operand of '<=' has the wrong type"
    );
    assert_eq!(
        InterpreterError::UnsupportedOperator(TokenType::Comma).diagnostic(),
        "TypeError: unsupported operator 'a token that is no operator'"
    );
    assert_eq!(
        InterpreterError::UndefinedVariable("y".into()).diagnostic(),
        "UndefinedVariableError: Undefined variable 'y'"
    );
}
