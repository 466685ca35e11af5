use vstd::prelude::*;

use crate::ast::{
    statement_model, statements_model, Assign, Binary, BlockStatement, Expr, Grouping, Literal,
    Statement, StatementModel, Unary, Variable,
};
use crate::text::{decimal, decimal_string};
use crate::token::{Token, TokenType};
use vstd::string::*;

verus! {

/// A parse error as contracts see it: the offending token and the message.
pub type ParseErrorModel = (Token, Seq<char>);

/// An expression parse: the expression or the error, and where parsing stopped.
pub type ExprParse = (Result<Expr, ParseErrorModel>, int);

/// A statement parse: the statement or the error, and where parsing stopped.
pub type StmtParse = (Result<StatementModel, ParseErrorModel>, int);

// ---------------------------------------------------------------------------
// The grammar, stated over the token sequence. Each rule takes the position
// where it starts and gives its result and the position after it.
//
// A sequence the parser accepts ends with its only end-of-input token, so
// `at(t, p, k)` (position `p` holds `k` and is not the last) is, for every
// `k` but `Eof`, just "the token at `p` has kind `k`".

/// Token sequences the parser accepts: one end-of-input token, at the end.
pub open spec fn well_formed_tokens(t: Seq<Token>) -> bool {
    &&& t.len() > 0
    &&& t.last().token_type == TokenType::Eof
    &&& forall|i: int| 0 <= i < t.len() - 1 ==> t[i].token_type != TokenType::Eof
}

pub open spec fn at(t: Seq<Token>, p: int, k: TokenType) -> bool {
    0 <= p < t.len() - 1 && t[p].token_type == k
}

pub open spec fn at_equality_op(t: Seq<Token>, p: int) -> bool {
    at(t, p, TokenType::BangEqual) || at(t, p, TokenType::EqualEqual)
}

pub open spec fn at_comparison_op(t: Seq<Token>, p: int) -> bool {
    at(t, p, TokenType::Greater) || at(t, p, TokenType::GreaterEqual) || at(
        t,
        p,
        TokenType::Less,
    ) || at(t, p, TokenType::LessEqual)
}

pub open spec fn at_term_op(t: Seq<Token>, p: int) -> bool {
    at(t, p, TokenType::Minus) || at(t, p, TokenType::Plus)
}

pub open spec fn at_factor_op(t: Seq<Token>, p: int) -> bool {
    at(t, p, TokenType::Slash) || at(t, p, TokenType::Star)
}

pub open spec fn at_unary_op(t: Seq<Token>, p: int) -> bool {
    at(t, p, TokenType::Bang) || at(t, p, TokenType::Minus)
}

/// expression → assignment
pub open spec fn expression(t: Seq<Token>, p: int) -> ExprParse
    decreases t.len() - p, 20int,
{
    assignment(t, p)
}

/// assignment → IDENT "=" assignment | equality   (right-associative)
pub open spec fn assignment(t: Seq<Token>, p: int) -> ExprParse
    decreases t.len() - p, 19int,
{
    let (r, q) = equality(t, p);
    match r {
        Err(e) => (Err(e), q),
        Ok(target) => {
            if at(t, q, TokenType::Equal) && p <= q {
                let (rv, q2) = assignment(t, q + 1);
                match rv {
                    Err(e) => (Err(e), q2),
                    Ok(value) => match target {
                        Expr::Variable(v) => (
                            Ok(Expr::Assign(Assign { name: v.name, value: Box::new(value) })),
                            q2,
                        ),
                        _ => (Err((t[q], "Invalid assignment target"@)), q2),
                    },
                }
            } else {
                (Ok(target), q)
            }
        },
    }
}

/// equality → comparison (("!=" | "==") comparison)*
pub open spec fn equality(t: Seq<Token>, p: int) -> ExprParse
    decreases t.len() - p, 18int,
{
    let (r, q) = comparison(t, p);
    match r {
        Err(e) => (Err(e), q),
        Ok(left) => if p <= q < t.len() {
            equality_rest(t, left, q)
        } else {
            (Ok(left), q)
        },
    }
}

/// Folds `(("!=" | "==") comparison)*` onto `left`, from the left.
pub open spec fn equality_rest(t: Seq<Token>, left: Expr, p: int) -> ExprParse
    decreases t.len() - p, 17int,
{
    if at_equality_op(t, p) {
        let (r, q) = comparison(t, p + 1);
        match r {
            Err(e) => (Err(e), q),
            Ok(right) => {
                let e = Expr::Binary(Binary { left: Box::new(left), op: t[p], right: Box::new(right) });
                if p < q < t.len() {
                    equality_rest(t, e, q)
                } else {
                    (Ok(e), q)
                }
            },
        }
    } else {
        (Ok(left), p)
    }
}

/// comparison → term ((">" | ">=" | "<" | "<=") term)*
pub open spec fn comparison(t: Seq<Token>, p: int) -> ExprParse
    decreases t.len() - p, 16int,
{
    let (r, q) = term(t, p);
    match r {
        Err(e) => (Err(e), q),
        Ok(left) => if p <= q < t.len() {
            comparison_rest(t, left, q)
        } else {
            (Ok(left), q)
        },
    }
}

pub open spec fn comparison_rest(t: Seq<Token>, left: Expr, p: int) -> ExprParse
    decreases t.len() - p, 15int,
{
    if at_comparison_op(t, p) {
        let (r, q) = term(t, p + 1);
        match r {
            Err(e) => (Err(e), q),
            Ok(right) => {
                let e = Expr::Binary(Binary { left: Box::new(left), op: t[p], right: Box::new(right) });
                if p < q < t.len() {
                    comparison_rest(t, e, q)
                } else {
                    (Ok(e), q)
                }
            },
        }
    } else {
        (Ok(left), p)
    }
}

/// term → factor (("-" | "+") factor)*
pub open spec fn term(t: Seq<Token>, p: int) -> ExprParse
    decreases t.len() - p, 14int,
{
    let (r, q) = factor(t, p);
    match r {
        Err(e) => (Err(e), q),
        Ok(left) => if p <= q < t.len() {
            term_rest(t, left, q)
        } else {
            (Ok(left), q)
        },
    }
}

pub open spec fn term_rest(t: Seq<Token>, left: Expr, p: int) -> ExprParse
    decreases t.len() - p, 13int,
{
    if at_term_op(t, p) {
        let (r, q) = factor(t, p + 1);
        match r {
            Err(e) => (Err(e), q),
            Ok(right) => {
                let e = Expr::Binary(Binary { left: Box::new(left), op: t[p], right: Box::new(right) });
                if p < q < t.len() {
                    term_rest(t, e, q)
                } else {
                    (Ok(e), q)
                }
            },
        }
    } else {
        (Ok(left), p)
    }
}

/// factor → unary (("/" | "*") unary)*
pub open spec fn factor(t: Seq<Token>, p: int) -> ExprParse
    decreases t.len() - p, 12int,
{
    let (r, q) = unary(t, p);
    match r {
        Err(e) => (Err(e), q),
        Ok(left) => if p <= q < t.len() {
            factor_rest(t, left, q)
        } else {
            (Ok(left), q)
        },
    }
}

pub open spec fn factor_rest(t: Seq<Token>, left: Expr, p: int) -> ExprParse
    decreases t.len() - p, 11int,
{
    if at_factor_op(t, p) {
        let (r, q) = unary(t, p + 1);
        match r {
            Err(e) => (Err(e), q),
            Ok(right) => {
                let e = Expr::Binary(Binary { left: Box::new(left), op: t[p], right: Box::new(right) });
                if p < q < t.len() {
                    factor_rest(t, e, q)
                } else {
                    (Ok(e), q)
                }
            },
        }
    } else {
        (Ok(left), p)
    }
}

/// unary → ("!" | "-") unary | primary   (right-associative)
pub open spec fn unary(t: Seq<Token>, p: int) -> ExprParse
    decreases t.len() - p, 10int,
{
    if at_unary_op(t, p) {
        let (r, q) = unary(t, p + 1);
        match r {
            Err(e) => (Err(e), q),
            Ok(operand) => (Ok(Expr::Unary(Unary { op: t[p], expr: Box::new(operand) })), q),
        }
    } else {
        primary(t, p)
    }
}

/// primary → NUMBER | STRING | "true" | "false" | "nil" | IDENT | "(" expression ")"
pub open spec fn primary(t: Seq<Token>, p: int) -> ExprParse
    decreases t.len() - p, 9int,
{
    if at(t, p, TokenType::False) || at(t, p, TokenType::True) {
        (Ok(Expr::Literal(Literal::Boolean(t[p].token_type == TokenType::True))), p + 1)
    } else if at(t, p, TokenType::Nil) {
        (Ok(Expr::Literal(Literal::Nil)), p + 1)
    } else if at(t, p, TokenType::String) {
        (Ok(Expr::Literal(Literal::String(t[p].lexeme))), p + 1)
    } else if at(t, p, TokenType::Number) {
        (Ok(Expr::Literal(Literal::Number(t[p].lexeme))), p + 1)
    } else if at(t, p, TokenType::Identifier) {
        (Ok(Expr::Variable(Variable { name: t[p] })), p + 1)
    } else if at(t, p, TokenType::LeftParen) {
        let (r, q) = expression(t, p + 1);
        match r {
            Err(e) => (Err(e), q),
            Ok(inner) => if at(t, q, TokenType::RightParen) {
                (Ok(Expr::Grouping(Grouping { expr: Box::new(inner) })), q + 1)
            } else {
                (Err((t[q], "Expect ')' after expression."@)), q)
            },
        }
    } else {
        (Err((t[p], "Expected expression"@)), p)
    }
}

/// The `;` that ends a statement whose body parsed to `s`, stopping at `q`.
pub open spec fn end_statement(t: Seq<Token>, s: StatementModel, q: int, msg: Seq<char>) -> StmtParse {
    if at(t, q, TokenType::Semicolon) {
        (Ok(s), q + 1)
    } else {
        (Err((t[q], msg)), q)
    }
}

/// varDecl → "var" IDENT ("=" expression)? ";"   (`p` is just after "var")
pub open spec fn var_decl(t: Seq<Token>, p: int) -> StmtParse
    decreases t.len() - p, 24int,
{
    if !at(t, p, TokenType::Identifier) {
        (Err((t[p], "Expected variable name"@)), p)
    } else if at(t, p + 1, TokenType::Equal) {
        let (r, q) = expression(t, p + 2);
        match r {
            Err(e) => (Err(e), q),
            Ok(init) => end_statement(
                t,
                StatementModel::Variable(t[p], Some(init)),
                q,
                "Expected ';' after variable declaration"@,
            ),
        }
    } else {
        end_statement(
            t,
            StatementModel::Variable(t[p], None),
            p + 1,
            "Expected ';' after variable declaration"@,
        )
    }
}

/// statement → "print" expression ";" | block | expression ";"
pub open spec fn statement(t: Seq<Token>, p: int) -> StmtParse
    decreases t.len() - p, 24int,
{
    if at(t, p, TokenType::Print) {
        let (r, q) = expression(t, p + 1);
        match r {
            Err(e) => (Err(e), q),
            Ok(e) => end_statement(t, StatementModel::Print(e), q, "Expect ';' after value."@),
        }
    } else if at(t, p, TokenType::LeftBrace) {
        block(t, p + 1, Seq::empty())
    } else {
        let (r, q) = expression(t, p);
        match r {
            Err(e) => (Err(e), q),
            Ok(e) => end_statement(
                t,
                StatementModel::Expression(e),
                q,
                "Expect ';' after expression."@,
            ),
        }
    }
}

/// block → "{" declaration* "}"   (`p` is just after "{", `done` the
/// statements already parsed). An error inside a block ends the block.
pub open spec fn block(t: Seq<Token>, p: int, done: Seq<StatementModel>) -> StmtParse
    decreases t.len() - p, 26int,
{
    if at(t, p, TokenType::RightBrace) {
        (Ok(StatementModel::Block(done)), p + 1)
    } else if !(0 <= p < t.len() - 1) {
        (Err((t[p], "Expect '}' after block."@)), p)
    } else {
        let (r, q) = declaration_body(t, p);
        match r {
            Err(e) => (Err(e), q),
            Ok(s) => if p < q < t.len() {
                block(t, q, done.push(s))
            } else {
                (Ok(StatementModel::Block(done.push(s))), q)
            },
        }
    }
}

/// declaration → varDecl | statement, without recovery.
pub open spec fn declaration_body(t: Seq<Token>, p: int) -> StmtParse
    decreases t.len() - p, 25int,
{
    if at(t, p, TokenType::Var) {
        var_decl(t, p + 1)
    } else {
        statement(t, p)
    }
}

/// Kinds that start a statement or declaration; recovery stops before them.
pub open spec fn starts_statement(k: TokenType) -> bool {
    k == TokenType::Class || k == TokenType::For || k == TokenType::Fun || k == TokenType::If
        || k == TokenType::Print || k == TokenType::Return || k == TokenType::Var || k
        == TokenType::While
}

/// Recovery after an error at `q`: skip at least one token (unless at the
/// end), then up to just after a `;`, or up to a token that starts a
/// statement, or up to the end.
pub open spec fn synchronize(t: Seq<Token>, q: int) -> int {
    if 0 <= q < t.len() - 1 {
        skip_to_boundary(t, q + 1)
    } else {
        q
    }
}

pub open spec fn skip_to_boundary(t: Seq<Token>, q: int) -> int
    decreases t.len() - q,
{
    if !(0 <= q < t.len() - 1) {
        q
    } else if t[q - 1].token_type == TokenType::Semicolon {
        q
    } else if starts_statement(t[q].token_type) {
        q
    } else {
        skip_to_boundary(t, q + 1)
    }
}

/// declaration, with recovery: on an error, parsing resumes at the boundary.
pub open spec fn declaration(t: Seq<Token>, p: int) -> StmtParse {
    let (r, q) = declaration_body(t, p);
    match r {
        Err(e) => (Err(e), synchronize(t, q)),
        Ok(s) => (Ok(s), q),
    }
}

/// program → declaration* EOF, from `p`, with the statements and errors
/// found before `p`: all statements when no error was found, else all errors.
pub open spec fn program(
    t: Seq<Token>,
    p: int,
    statements: Seq<StatementModel>,
    errors: Seq<ParseErrorModel>,
) -> Result<Seq<StatementModel>, Seq<ParseErrorModel>>
    decreases t.len() - p,
{
    if !(0 <= p < t.len() - 1) {
        if errors.len() == 0 {
            Ok(statements)
        } else {
            Err(errors)
        }
    } else {
        let (r, q) = declaration(t, p);
        let statements2 = match r {
            Ok(s) => statements.push(s),
            Err(_) => statements,
        };
        let errors2 = match r {
            Ok(_) => errors,
            Err(e) => errors.push(e),
        };
        // every declaration moves forward; the guard only makes that visible here
        if p < q < t.len() {
            program(t, q, statements2, errors2)
        } else {
            Err(errors2)
        }
    }
}

/// The result of parsing all of `t`.
pub open spec fn parse_tokens(t: Seq<Token>) -> Result<Seq<StatementModel>, Seq<ParseErrorModel>> {
    program(t, 0, Seq::empty(), Seq::empty())
}

// ---------------------------------------------------------------------------
// Errors

/// A parse error: the token where it was found and what was expected.
#[derive(Debug)]
pub struct ParserError {
    pub token: Token,
    pub msg: String,
}

impl View for ParserError {
    type V = ParseErrorModel;

    open spec fn view(&self) -> ParseErrorModel {
        (self.token, self.msg@)
    }
}

impl ParserError {
    pub fn new(token: Token, msg: String) -> (r: ParserError)
        ensures
            r.token == token,
            r.msg == msg,
    {
        ParserError { token, msg }
    }

    /// The diagnostic line: `[line n] ParseError: msg`, with the line of the
    /// token where the error was found.
    pub fn diagnostic(&self) -> (r: String)
        ensures
            r@ == "[line "@ + decimal(self.token.line as nat) + "] ParseError: "@ + self.msg@,
    {
        let r = "[line ".to_owned();
        let r = r.concat(decimal_string(self.token.line).as_str());
        let r = r.concat("] ParseError: ");
        r.concat(self.msg.as_str())
    }
}

pub open spec fn expr_parse_of(r: (Result<Expr, ParserError>, usize)) -> ExprParse {
    (
        match r.0 {
            Ok(e) => Ok(e),
            Err(err) => Err(err@),
        },
        r.1 as int,
    )
}

pub open spec fn stmt_parse_of(r: (Result<Statement, ParserError>, usize)) -> StmtParse {
    (
        match r.0 {
            Ok(s) => Ok(s@),
            Err(err) => Err(err@),
        },
        r.1 as int,
    )
}

/// Whether an executable parse outcome is the one the model describes.
pub open spec fn parse_outcome_is(
    r: Result<Vec<Statement>, Vec<ParserError>>,
    m: Result<Seq<StatementModel>, Seq<ParseErrorModel>>,
) -> bool {
    match (r, m) {
        (Ok(v), Ok(ss)) => statements_model(v@) == ss,
        (Err(v), Err(es)) => v@.map_values(|e: ParserError| e@) == es,
        _ => false,
    }
}

// ---------------------------------------------------------------------------
// The parser

/// Recursive-descent parser over the tokens of one scan.
pub struct Parser {
    tokens: Vec<Token>,
    current_index: usize,
}

impl Parser {
    /// The tokens being parsed.
    pub closed spec fn tokens(&self) -> Seq<Token> {
        self.tokens@
    }

    /// Parsing has not started: it begins at the first token.
    pub closed spec fn wf(&self) -> bool {
        self.current_index == 0
    }

    closed spec fn inv(&self) -> bool {
        well_formed_tokens(self.tokens@) && self.tokens@.len() <= usize::MAX
    }

    pub fn new(tokens: Vec<Token>) -> (r: Parser)
        ensures
            r.wf(),
            r.tokens() == tokens@,
    {
        Parser { tokens, current_index: 0 }
    }

    /// Parses every declaration up to the end of input: all statements, or,
    /// if any parse error was found, all errors in order.
    /// The tokens must be those of a scan: one end-of-input token, at the end.
    pub fn parse(self) -> (r: Result<Vec<Statement>, Vec<ParserError>>)
        requires
            self.wf(),
            well_formed_tokens(self.tokens()),
        ensures
            parse_outcome_is(r, parse_tokens(self.tokens())),
    {
        let _ = self.tokens.len();
        let ghost t = self.tokens@;
        let mut pos: usize = self.current_index;
        let mut statements: Vec<Statement> = Vec::new();
        let mut errors: Vec<ParserError> = Vec::new();
        assert(statements_model(statements@) =~= Seq::<StatementModel>::empty());
        assert(errors@.map_values(|e: ParserError| e@) =~= Seq::<ParseErrorModel>::empty());
        while !self.is_at_end(pos)
            invariant
                self.inv(),
                self.tokens@ == t,
                pos < t.len(),
                parse_tokens(t) == program(
                    t,
                    pos as int,
                    statements_model(statements@),
                    errors@.map_values(|e: ParserError| e@),
                ),
            decreases t.len() - pos,
        {
            let ghost es = errors@.map_values(|e: ParserError| e@);
            let (r, q) = self.declaration(pos);
            match r {
                Ok(s) => {
                    let ghost before = statements@;
                    statements.push(s);
                    assert(statements@.drop_last() =~= before);
                },
                Err(e) => {
                    errors.push(e);
                    assert(errors@.map_values(|e: ParserError| e@) =~= es.push(e@));
                },
            }
            pos = q;
        }
        if errors.len() == 0 {
            Ok(statements)
        } else {
            Err(errors)
        }
    }

    // Grammar rules

    /// declaration, with recovery.
    fn declaration(&self, pos: usize) -> (r: (Result<Statement, ParserError>, usize))
        requires
            self.inv(),
            pos < self.tokens@.len() - 1,
        ensures
            stmt_parse_of(r) == declaration(self.tokens@, pos as int),
            pos < r.1 < self.tokens@.len(),
    {
        let (r, q) = self.declaration_body(pos);
        match r {
            Ok(s) => (Ok(s), q),
            Err(e) => (Err(e), self.synchronize(q)),
        }
    }

    /// declaration → varDecl | statement
    fn declaration_body(&self, pos: usize) -> (r: (Result<Statement, ParserError>, usize))
        requires
            self.inv(),
            pos < self.tokens@.len(),
        ensures
            stmt_parse_of(r) == declaration_body(self.tokens@, pos as int),
            pos <= r.1 < self.tokens@.len(),
            r.0 is Ok ==> pos < r.1,
        decreases self.tokens@.len() - pos, 25int,
    {
        if self.check(pos, TokenType::Var) {
            self.var_decl(pos + 1)
        } else {
            self.statement(pos)
        }
    }

    /// varDecl, from just after "var".
    fn var_decl(&self, pos: usize) -> (r: (Result<Statement, ParserError>, usize))
        requires
            self.inv(),
            pos < self.tokens@.len(),
        ensures
            stmt_parse_of(r) == var_decl(self.tokens@, pos as int),
            pos <= r.1 < self.tokens@.len(),
            r.0 is Ok ==> pos < r.1,
        decreases self.tokens@.len() - pos, 24int,
    {
        if !self.check(pos, TokenType::Identifier) {
            return (Err(self.error_at(pos, "Expected variable name")), pos);
        }
        let name = self.tokens[pos].duplicate();
        if self.check(pos + 1, TokenType::Equal) {
            let (r, q) = self.expression(pos + 2);
            match r {
                Err(err) => (Err(err), q),
                Ok(e) => self.end_var_decl(name, Some(e), q),
            }
        } else {
            self.end_var_decl(name, None, pos + 1)
        }
    }

    /// The `;` that ends a variable declaration.
    fn end_var_decl(&self, name: Token, initializer: Option<Expr>, pos: usize) -> (r: (
        Result<Statement, ParserError>,
        usize,
    ))
        requires
            self.inv(),
            pos < self.tokens@.len(),
        ensures
            stmt_parse_of(r) == end_statement(
                self.tokens@,
                StatementModel::Variable(name, initializer),
                pos as int,
                "Expected ';' after variable declaration"@,
            ),
            pos <= r.1 < self.tokens@.len(),
            r.0 is Ok ==> pos < r.1,
    {
        if self.check(pos, TokenType::Semicolon) {
            (Ok(Statement::new_var_statement(name, initializer)), pos + 1)
        } else {
            (Err(self.error_at(pos, "Expected ';' after variable declaration")), pos)
        }
    }

    /// statement → "print" expression ";" | block | expression ";"
    fn statement(&self, pos: usize) -> (r: (Result<Statement, ParserError>, usize))
        requires
            self.inv(),
            pos < self.tokens@.len(),
        ensures
            stmt_parse_of(r) == statement(self.tokens@, pos as int),
            pos <= r.1 < self.tokens@.len(),
            r.0 is Ok ==> pos < r.1,
        decreases self.tokens@.len() - pos, 24int,
    {
        if self.check(pos, TokenType::Print) {
            let (r, q) = self.expression(pos + 1);
            match r {
                Err(err) => (Err(err), q),
                Ok(e) => if self.check(q, TokenType::Semicolon) {
                    (Ok(Statement::new_print_statement(e)), q + 1)
                } else {
                    (Err(self.error_at(q, "Expect ';' after value.")), q)
                },
            }
        } else if self.check(pos, TokenType::LeftBrace) {
            self.block(pos + 1)
        } else {
            let (r, q) = self.expression(pos);
            match r {
                Err(err) => (Err(err), q),
                Ok(e) => if self.check(q, TokenType::Semicolon) {
                    (Ok(Statement::new_expression_statement(e)), q + 1)
                } else {
                    (Err(self.error_at(q, "Expect ';' after expression.")), q)
                },
            }
        }
    }

    /// block, from just after "{".
    fn block(&self, pos: usize) -> (r: (Result<Statement, ParserError>, usize))
        requires
            self.inv(),
            pos < self.tokens@.len(),
        ensures
            stmt_parse_of(r) == block(self.tokens@, pos as int, Seq::empty()),
            pos <= r.1 < self.tokens@.len(),
            r.0 is Ok ==> pos < r.1,
        decreases self.tokens@.len() - pos, 27int,
    {
        let ghost t = self.tokens@;
        let mut statements: Vec<Statement> = Vec::new();
        let mut q = pos;
        assert(statements_model(statements@) =~= Seq::<StatementModel>::empty());
        while !self.check(q, TokenType::RightBrace) && !self.is_at_end(q)
            invariant
                self.inv(),
                self.tokens@ == t,
                pos <= q < t.len(),
                block(t, pos as int, Seq::empty()) == block(
                    t,
                    q as int,
                    statements_model(statements@),
                ),
            decreases t.len() - q,
        {
            let (r, q2) = self.declaration_body(q);
            match r {
                Err(err) => return (Err(err), q2),
                Ok(s) => {
                    let ghost before = statements@;
                    statements.push(s);
                    assert(statements@.drop_last() =~= before);
                },
            }
            q = q2;
        }
        if self.check(q, TokenType::RightBrace) {
            (Ok(Statement::new_block_statement(statements)), q + 1)
        } else {
            (Err(self.error_at(q, "Expect '}' after block.")), q)
        }
    }

    /// expression → assignment
    fn expression(&self, pos: usize) -> (r: (Result<Expr, ParserError>, usize))
        requires
            self.inv(),
            pos < self.tokens@.len(),
        ensures
            expr_parse_of(r) == expression(self.tokens@, pos as int),
            pos <= r.1 < self.tokens@.len(),
            r.0 is Ok ==> pos < r.1,
        decreases self.tokens@.len() - pos, 20int,
    {
        self.assignment(pos)
    }

    /// assignment → IDENT "=" assignment | equality
    fn assignment(&self, pos: usize) -> (r: (Result<Expr, ParserError>, usize))
        requires
            self.inv(),
            pos < self.tokens@.len(),
        ensures
            expr_parse_of(r) == assignment(self.tokens@, pos as int),
            pos <= r.1 < self.tokens@.len(),
            r.0 is Ok ==> pos < r.1,
        decreases self.tokens@.len() - pos, 19int,
    {
        let (r, q) = self.equality(pos);
        let target = match r {
            Err(err) => return (Err(err), q),
            Ok(e) => e,
        };
        if self.check(q, TokenType::Equal) {
            // assignment is right-associative: the value is an assignment too
            let (rv, q2) = self.assignment(q + 1);
            let value = match rv {
                Err(err) => return (Err(err), q2),
                Ok(v) => v,
            };
            match target {
                Expr::Variable(v) => (Ok(Expr::new_assign(v.name, value)), q2),
                _ => (Err(self.error_at(q, "Invalid assignment target")), q2),
            }
        } else {
            (Ok(target), q)
        }
    }

    /// equality → comparison (("!=" | "==") comparison)*
    fn equality(&self, pos: usize) -> (r: (Result<Expr, ParserError>, usize))
        requires
            self.inv(),
            pos < self.tokens@.len(),
        ensures
            expr_parse_of(r) == equality(self.tokens@, pos as int),
            pos <= r.1 < self.tokens@.len(),
            r.0 is Ok ==> pos < r.1,
        decreases self.tokens@.len() - pos, 18int,
    {
        let ghost t = self.tokens@;
        let (r, q0) = self.comparison(pos);
        let mut expr = match r {
            Err(err) => return (Err(err), q0),
            Ok(e) => e,
        };
        let mut q = q0;
        while self.check(q, TokenType::BangEqual) || self.check(q, TokenType::EqualEqual)
            invariant
                self.inv(),
                self.tokens@ == t,
                pos < q < t.len(),
                equality(t, pos as int) == equality_rest(t, expr, q as int),
            decreases t.len() - q,
        {
            let op = self.tokens[q].duplicate();
            let (r, q2) = self.comparison(q + 1);
            match r {
                Err(err) => return (Err(err), q2),
                Ok(right) => {
                    expr = Expr::new_binary(expr, op, right);
                },
            }
            q = q2;
        }
        (Ok(expr), q)
    }

    /// comparison → term ((">" | ">=" | "<" | "<=") term)*
    fn comparison(&self, pos: usize) -> (r: (Result<Expr, ParserError>, usize))
        requires
            self.inv(),
            pos < self.tokens@.len(),
        ensures
            expr_parse_of(r) == comparison(self.tokens@, pos as int),
            pos <= r.1 < self.tokens@.len(),
            r.0 is Ok ==> pos < r.1,
        decreases self.tokens@.len() - pos, 16int,
    {
        let ghost t = self.tokens@;
        let (r, q0) = self.term(pos);
        let mut expr = match r {
            Err(err) => return (Err(err), q0),
            Ok(e) => e,
        };
        let mut q = q0;
        while self.check(q, TokenType::Greater) || self.check(q, TokenType::GreaterEqual)
            || self.check(q, TokenType::Less) || self.check(q, TokenType::LessEqual)
            invariant
                self.inv(),
                self.tokens@ == t,
                pos < q < t.len(),
                comparison(t, pos as int) == comparison_rest(t, expr, q as int),
            decreases t.len() - q,
        {
            let op = self.tokens[q].duplicate();
            let (r, q2) = self.term(q + 1);
            match r {
                Err(err) => return (Err(err), q2),
                Ok(right) => {
                    expr = Expr::new_binary(expr, op, right);
                },
            }
            q = q2;
        }
        (Ok(expr), q)
    }

    /// term → factor (("-" | "+") factor)*
    fn term(&self, pos: usize) -> (r: (Result<Expr, ParserError>, usize))
        requires
            self.inv(),
            pos < self.tokens@.len(),
        ensures
            expr_parse_of(r) == term(self.tokens@, pos as int),
            pos <= r.1 < self.tokens@.len(),
            r.0 is Ok ==> pos < r.1,
        decreases self.tokens@.len() - pos, 14int,
    {
        let ghost t = self.tokens@;
        let (r, q0) = self.factor(pos);
        let mut expr = match r {
            Err(err) => return (Err(err), q0),
            Ok(e) => e,
        };
        let mut q = q0;
        while self.check(q, TokenType::Minus) || self.check(q, TokenType::Plus)
            invariant
                self.inv(),
                self.tokens@ == t,
                pos < q < t.len(),
                term(t, pos as int) == term_rest(t, expr, q as int),
            decreases t.len() - q,
        {
            let op = self.tokens[q].duplicate();
            let (r, q2) = self.factor(q + 1);
            match r {
                Err(err) => return (Err(err), q2),
                Ok(right) => {
                    expr = Expr::new_binary(expr, op, right);
                },
            }
            q = q2;
        }
        (Ok(expr), q)
    }

    /// factor → unary (("/" | "*") unary)*
    fn factor(&self, pos: usize) -> (r: (Result<Expr, ParserError>, usize))
        requires
            self.inv(),
            pos < self.tokens@.len(),
        ensures
            expr_parse_of(r) == factor(self.tokens@, pos as int),
            pos <= r.1 < self.tokens@.len(),
            r.0 is Ok ==> pos < r.1,
        decreases self.tokens@.len() - pos, 12int,
    {
        let ghost t = self.tokens@;
        let (r, q0) = self.unary(pos);
        let mut expr = match r {
            Err(err) => return (Err(err), q0),
            Ok(e) => e,
        };
        let mut q = q0;
        while self.check(q, TokenType::Slash) || self.check(q, TokenType::Star)
            invariant
                self.inv(),
                self.tokens@ == t,
                pos < q < t.len(),
                factor(t, pos as int) == factor_rest(t, expr, q as int),
            decreases t.len() - q,
        {
            let op = self.tokens[q].duplicate();
            let (r, q2) = self.unary(q + 1);
            match r {
                Err(err) => return (Err(err), q2),
                Ok(right) => {
                    expr = Expr::new_binary(expr, op, right);
                },
            }
            q = q2;
        }
        (Ok(expr), q)
    }

    /// unary → ("!" | "-") unary | primary
    fn unary(&self, pos: usize) -> (r: (Result<Expr, ParserError>, usize))
        requires
            self.inv(),
            pos < self.tokens@.len(),
        ensures
            expr_parse_of(r) == unary(self.tokens@, pos as int),
            pos <= r.1 < self.tokens@.len(),
            r.0 is Ok ==> pos < r.1,
        decreases self.tokens@.len() - pos, 10int,
    {
        if self.check(pos, TokenType::Bang) || self.check(pos, TokenType::Minus) {
            let op = self.tokens[pos].duplicate();
            let (r, q) = self.unary(pos + 1);
            match r {
                Err(err) => (Err(err), q),
                Ok(operand) => (Ok(Expr::new_unary(op, operand)), q),
            }
        } else {
            self.primary(pos)
        }
    }

    /// primary → NUMBER | STRING | "true" | "false" | "nil" | IDENT | "(" expression ")"
    fn primary(&self, pos: usize) -> (r: (Result<Expr, ParserError>, usize))
        requires
            self.inv(),
            pos < self.tokens@.len(),
        ensures
            expr_parse_of(r) == primary(self.tokens@, pos as int),
            pos <= r.1 < self.tokens@.len(),
            r.0 is Ok ==> pos < r.1,
        decreases self.tokens@.len() - pos, 9int,
    {
        if self.check(pos, TokenType::False) || self.check(pos, TokenType::True) {
            let is_true = self.tokens[pos].token_type == TokenType::True;
            (Ok(Expr::new_boolean_literal(is_true)), pos + 1)
        } else if self.check(pos, TokenType::Nil) {
            (Ok(Expr::new_nil_literal()), pos + 1)
        } else if self.check(pos, TokenType::String) {
            (Ok(Expr::new_string_literal(self.tokens[pos].lexeme.clone())), pos + 1)
        } else if self.check(pos, TokenType::Number) {
            (Ok(Expr::new_number_literal(self.tokens[pos].lexeme.clone())), pos + 1)
        } else if self.check(pos, TokenType::Identifier) {
            (Ok(Expr::new_variable(self.tokens[pos].duplicate())), pos + 1)
        } else if self.check(pos, TokenType::LeftParen) {
            let (r, q) = self.expression(pos + 1);
            match r {
                Err(err) => (Err(err), q),
                Ok(inner) => if self.check(q, TokenType::RightParen) {
                    (Ok(Expr::new_grouping(inner)), q + 1)
                } else {
                    (Err(self.error_at(q, "Expect ')' after expression.")), q)
                },
            }
        } else {
            (Err(self.error_at(pos, "Expected expression")), pos)
        }
    }

    // Helpers

    /// Whether the token at `pos` has kind `token_type` and is not the last.
    fn check(&self, pos: usize, token_type: TokenType) -> (r: bool)
        requires
            self.inv(),
            pos < self.tokens@.len(),
        ensures
            r == at(self.tokens@, pos as int, token_type),
    {
        pos < self.tokens.len() - 1 && self.tokens[pos].token_type == token_type
    }

    /// Whether `pos` holds the end-of-input token.
    fn is_at_end(&self, pos: usize) -> (r: bool)
        requires
            self.inv(),
            pos < self.tokens@.len(),
        ensures
            r == !(pos < self.tokens@.len() - 1),
    {
        self.tokens[pos].token_type == TokenType::Eof
    }

    /// An error at the token at `pos`.
    fn error_at(&self, pos: usize, msg: &str) -> (r: ParserError)
        requires
            pos < self.tokens@.len(),
        ensures
            r@ == (self.tokens@[pos as int], msg@),
    {
        ParserError::new(self.tokens[pos].duplicate(), msg.to_owned())
    }

    /// Recovery after an error at `pos`.
    fn synchronize(&self, pos: usize) -> (r: usize)
        requires
            self.inv(),
            pos < self.tokens@.len(),
        ensures
            r == synchronize(self.tokens@, pos as int),
            pos <= r < self.tokens@.len(),
            pos < self.tokens@.len() - 1 ==> pos < r,
    {
        let ghost t = self.tokens@;
        if self.is_at_end(pos) {
            return pos;
        }
        let mut q = pos + 1;
        while !self.is_at_end(q)
            invariant
                self.inv(),
                self.tokens@ == t,
                pos < q < t.len(),
                skip_to_boundary(t, pos + 1) == skip_to_boundary(t, q as int),
            decreases t.len() - q,
        {
            if self.tokens[q - 1].token_type == TokenType::Semicolon {
                return q;
            }
            let k = self.tokens[q].token_type;
            if k == TokenType::Class || k == TokenType::For || k == TokenType::Fun || k
                == TokenType::If || k == TokenType::Print || k == TokenType::Return || k
                == TokenType::Var || k == TokenType::While {
                return q;
            }
            q = q + 1;
        }
        q
    }
}

/// Parses `tokens`: all statements, or, if any parse error was found, all
/// errors in order.
pub fn parse(tokens: Vec<Token>) -> (r: Result<Vec<Statement>, Vec<ParserError>>)
    requires
        well_formed_tokens(tokens@),
    ensures
        parse_outcome_is(r, parse_tokens(tokens@)),
{
    Parser::new(tokens).parse()
}

} // verus!
