use rox::scanner::{Scanner, ScannerError};
use rox::{scan, Token, TokenType};

#[test]
fn test_simple() {
    let s = Scanner::new("()");
    let a = s.scan_tokens().unwrap();
    assert_eq!(
        a,
        vec![
            Token::new(TokenType::LeftParen, "(".into(), 0),
            Token::new(TokenType::RightParen, ")".into(), 0),
            Token::new(TokenType::Eof, "".into(), 0)
        ]
    );
}

#[test]
fn test_complex_operators() {
    let input = "// this is a comment
        (( )){} // grouping stuff
        !*+-/=<> <= ==   // operators
        1234.567098 +23
        42
        \"aaaaaa\"
        or
        baba_is_you
        /";
    let s = Scanner::new(input);
    let a = s.scan_tokens().unwrap();
    assert_eq!(
        a,
        vec![
            Token::new(TokenType::LeftParen, "(".into(), 1),
            Token::new(TokenType::LeftParen, "(".into(), 1),
            Token::new(TokenType::RightParen, ")".into(), 1),
            Token::new(TokenType::RightParen, ")".into(), 1),
            Token::new(TokenType::LeftBrace, "{".into(), 1),
            Token::new(TokenType::RightBrace, "}".into(), 1),
            Token::new(TokenType::Bang, "!".into(), 2),
            Token::new(TokenType::Star, "*".into(), 2),
            Token::new(TokenType::Plus, "+".into(), 2),
            Token::new(TokenType::Minus, "-".into(), 2),
            Token::new(TokenType::Slash, "/".into(), 2),
            Token::new(TokenType::Equal, "=".into(), 2),
            Token::new(TokenType::Less, "<".into(), 2),
            Token::new(TokenType::Greater, ">".into(), 2),
            Token::new(TokenType::LessEqual, "<=".into(), 2),
            Token::new(TokenType::EqualEqual, "==".into(), 2),
            Token::new(TokenType::Number, "1234.567098".into(), 3),
            Token::new(TokenType::Plus, "+".into(), 3),
            Token::new(TokenType::Number, "23".into(), 3),
            Token::new(TokenType::Number, "42".into(), 4),
            Token::new(TokenType::String, "aaaaaa".into(), 5),
            Token::new(TokenType::Or, "or".into(), 6),
            Token::new(TokenType::Identifier, "baba_is_you".into(), 7),
            Token::new(TokenType::Slash, "/".into(), 8),
            Token::new(TokenType::Eof, "".into(), 8),
        ]
    );
}

#[test]
fn test_errors_on_unknown() {
    let s = Scanner::new("@#(");
    let a = s.scan_tokens().unwrap_err();
    assert_eq!(a.len(), 2);
    for e in a {
        assert!(e.line == 0 && &e.message == "Unexpected character");
    }
}

fn kinds(tokens: &[Token]) -> Vec<TokenType> {
    tokens.iter().map(|t| t.token_type).collect()
}

#[test]
fn multi_error_lexing_reports_each_bad_character() {
    let errors = scan("@#(").unwrap_err();
    assert_eq!(
        errors,
        vec![
            ScannerError::new(0, "Unexpected character".to_string()),
            ScannerError::new(0, "Unexpected character".to_string()),
        ]
    );
}

#[test]
fn errors_on_several_lines_keep_their_lines() {
    let errors = scan("a\n@\nb $").unwrap_err();
    assert_eq!(errors.len(), 2);
    assert_eq!(errors[0].line, 1);
    assert_eq!(errors[1].line, 2);
}

#[test]
fn empty_source_gives_only_end_of_input() {
    assert_eq!(scan("").unwrap(), vec![Token::new(TokenType::Eof, String::new(), 0)]);
}

#[test]
fn scanning_twice_gives_the_same_tokens() {
    let source = "var x = \"two\nlines\"; print x >= 3.5; // done\n!=";
    let first = scan(source).unwrap();
    let second = scan(source).unwrap();
    assert_eq!(first, second);
    let first_errors = scan("1 @ 2 ~").unwrap_err();
    let second_errors = scan("1 @ 2 ~").unwrap_err();
    assert_eq!(first_errors, second_errors);
}

#[test]
fn two_character_operators_use_one_character_of_lookahead() {
    let tokens = scan("!= ! == = <= < >= >").unwrap();
    assert_eq!(
        kinds(&tokens),
        vec![
            TokenType::BangEqual,
            TokenType::Bang,
            TokenType::EqualEqual,
            TokenType::Equal,
            TokenType::LessEqual,
            TokenType::Less,
            TokenType::GreaterEqual,
            TokenType::Greater,
            TokenType::Eof,
        ]
    );
    assert_eq!(tokens[6].lexeme, ">=");
}

#[test]
fn number_with_trailing_dot_stops_before_the_dot() {
    let tokens = scan("12. 3.25 7.x").unwrap();
    assert_eq!(
        tokens,
        vec![
            Token::new(TokenType::Number, "12".into(), 0),
            Token::new(TokenType::Dot, ".".into(), 0),
            Token::new(TokenType::Number, "3.25".into(), 0),
            Token::new(TokenType::Number, "7".into(), 0),
            Token::new(TokenType::Dot, ".".into(), 0),
            Token::new(TokenType::Identifier, "x".into(), 0),
            Token::new(TokenType::Eof, "".into(), 0),
        ]
    );
}

#[test]
fn multi_line_string_counts_its_newlines() {
    let tokens = scan("\"a\nb\nc\" x").unwrap();
    assert_eq!(tokens[0], Token::new(TokenType::String, "a\nb\nc".into(), 2));
    assert_eq!(tokens[1], Token::new(TokenType::Identifier, "x".into(), 2));
    assert_eq!(tokens[2], Token::new(TokenType::Eof, "".into(), 2));
}

#[test]
fn unterminated_string_is_an_error_at_the_last_line() {
    let errors = scan("print \"abc\ndef").unwrap_err();
    assert_eq!(errors, vec![ScannerError::new(1, "Unterminated string.".to_string())]);
}

#[test]
fn reserved_words_are_classified() {
    let tokens = scan(
        "and class else false for fun if nil or print return super this true var while variable _x",
    )
    .unwrap();
    assert_eq!(
        kinds(&tokens),
        vec![
            TokenType::And,
            TokenType::Class,
            TokenType::Else,
            TokenType::False,
            TokenType::For,
            TokenType::Fun,
            TokenType::If,
            TokenType::Nil,
            TokenType::Or,
            TokenType::Print,
            TokenType::Return,
            TokenType::Super,
            TokenType::This,
            TokenType::True,
            TokenType::Var,
            TokenType::While,
            TokenType::Identifier,
            TokenType::Identifier,
            TokenType::Eof,
        ]
    );
}

#[test]
fn whitespace_and_comments_are_skipped() {
    let tokens = scan(" \t\r// all of this\n;\n").unwrap();
    assert_eq!(
        tokens,
        vec![
            Token::new(TokenType::Semicolon, ";".into(), 1),
            Token::new(TokenType::Eof, "".into(), 2),
        ]
    );
}

#[test]
fn non_ascii_characters_are_unexpected() {
    let errors = scan("é").unwrap_err();
    assert_eq!(errors, vec![ScannerError::new(0, "Unexpected character".to_string())]);
}
