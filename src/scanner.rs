use vstd::prelude::*;

use crate::text::{chars_of, decimal, decimal_string, spells, string_of};
use vstd::string::*;
use crate::token::{Token, TokenType};

verus! {

/// A token as the scanner's contract sees it: kind, lexeme, line.
pub type TokenModel = (TokenType, Seq<char>, nat);

/// A lexical error as the scanner's contract sees it: line, message.
pub type ScanErrorModel = (nat, Seq<char>);

/// What one scanning step yields: nothing (blank or comment), a token, or an error.
pub type StepModel = Option<Result<TokenModel, ScanErrorModel>>;

// ---------------------------------------------------------------------------
// The lexical grammar, stated over the source's characters.

pub open spec fn is_digit(c: char) -> bool {
    '0' <= c && c <= '9'
}

pub open spec fn is_alpha(c: char) -> bool {
    ('a' <= c && c <= 'z') || ('A' <= c && c <= 'Z') || c == '_'
}

pub open spec fn is_alphanumeric(c: char) -> bool {
    is_alpha(c) || is_digit(c)
}

/// Whether position `k` of `s` holds `c`.
pub open spec fn char_at_is(s: Seq<char>, k: int, c: char) -> bool {
    0 <= k < s.len() && s[k] == c
}

/// First position at or after `i` that does not hold a digit.
pub open spec fn digits_end(s: Seq<char>, i: int) -> int
    decreases s.len() - i,
{
    if 0 <= i < s.len() && is_digit(s[i]) {
        digits_end(s, i + 1)
    } else {
        i
    }
}

/// First position at or after `i` that does not hold a letter, digit or underscore.
pub open spec fn word_end(s: Seq<char>, i: int) -> int
    decreases s.len() - i,
{
    if 0 <= i < s.len() && is_alphanumeric(s[i]) {
        word_end(s, i + 1)
    } else {
        i
    }
}

/// First position at or after `i` that holds `c`, or the length of `s`.
pub open spec fn find_char(s: Seq<char>, i: int, c: char) -> int
    decreases s.len() - i,
{
    if 0 <= i < s.len() && s[i] != c {
        find_char(s, i + 1, c)
    } else {
        i
    }
}

/// End of a number whose first digit is just before `i`: a run of digits,
/// then a `.` and a second run only when a digit follows the `.`.
pub open spec fn number_end(s: Seq<char>, i: int) -> int {
    let j = digits_end(s, i);
    if char_at_is(s, j, '.') && j + 1 < s.len() && is_digit(s[j + 1]) {
        digits_end(s, j + 1)
    } else {
        j
    }
}

pub open spec fn count_newlines(s: Seq<char>) -> nat
    decreases s.len(),
{
    if s.len() == 0 {
        0
    } else {
        count_newlines(s.drop_last()) + if s.last() == '\n' {
            1nat
        } else {
            0nat
        }
    }
}

/// The reserved word spelled by `t`, if any.
pub open spec fn keyword(t: Seq<char>) -> Option<TokenType> {
    if t == "and"@ {
        Some(TokenType::And)
    } else if t == "class"@ {
        Some(TokenType::Class)
    } else if t == "else"@ {
        Some(TokenType::Else)
    } else if t == "false"@ {
        Some(TokenType::False)
    } else if t == "for"@ {
        Some(TokenType::For)
    } else if t == "fun"@ {
        Some(TokenType::Fun)
    } else if t == "if"@ {
        Some(TokenType::If)
    } else if t == "nil"@ {
        Some(TokenType::Nil)
    } else if t == "or"@ {
        Some(TokenType::Or)
    } else if t == "print"@ {
        Some(TokenType::Print)
    } else if t == "return"@ {
        Some(TokenType::Return)
    } else if t == "super"@ {
        Some(TokenType::Super)
    } else if t == "this"@ {
        Some(TokenType::This)
    } else if t == "true"@ {
        Some(TokenType::True)
    } else if t == "var"@ {
        Some(TokenType::Var)
    } else if t == "while"@ {
        Some(TokenType::While)
    } else {
        None
    }
}

/// Kind of an identifier-shaped word: its reserved word, or `Identifier`.
pub open spec fn word_kind(t: Seq<char>) -> TokenType {
    match keyword(t) {
        Some(k) => k,
        None => TokenType::Identifier,
    }
}

/// Kind of a character that is a token by itself.
pub open spec fn single_kind(c: char) -> Option<TokenType> {
    if c == '(' {
        Some(TokenType::LeftParen)
    } else if c == ')' {
        Some(TokenType::RightParen)
    } else if c == '{' {
        Some(TokenType::LeftBrace)
    } else if c == '}' {
        Some(TokenType::RightBrace)
    } else if c == ',' {
        Some(TokenType::Comma)
    } else if c == '.' {
        Some(TokenType::Dot)
    } else if c == '-' {
        Some(TokenType::Minus)
    } else if c == '+' {
        Some(TokenType::Plus)
    } else if c == ';' {
        Some(TokenType::Semicolon)
    } else if c == '*' {
        Some(TokenType::Star)
    } else {
        None
    }
}

/// For `!`, `=`, `<`, `>`: the kind alone and the kind when `=` follows.
pub open spec fn pair_kinds(c: char) -> Option<(TokenType, TokenType)> {
    if c == '!' {
        Some((TokenType::Bang, TokenType::BangEqual))
    } else if c == '=' {
        Some((TokenType::Equal, TokenType::EqualEqual))
    } else if c == '<' {
        Some((TokenType::Less, TokenType::LessEqual))
    } else if c == '>' {
        Some((TokenType::Greater, TokenType::GreaterEqual))
    } else {
        None
    }
}

/// One scanning step at position `i` (before the end of `s`) on line `line`:
/// what it yields, where the next step starts, and the line there.
pub open spec fn scan_step(s: Seq<char>, i: int, line: nat) -> (StepModel, int, nat) {
    let c = s[i];
    if single_kind(c) is Some {
        (Some(Ok((single_kind(c)->0, s.subrange(i, i + 1), line))), i + 1, line)
    } else if pair_kinds(c) is Some {
        let (alone, with_equal) = pair_kinds(c)->0;
        if char_at_is(s, i + 1, '=') {
            (Some(Ok((with_equal, s.subrange(i, i + 2), line))), i + 2, line)
        } else {
            (Some(Ok((alone, s.subrange(i, i + 1), line))), i + 1, line)
        }
    } else if c == '/' {
        if char_at_is(s, i + 1, '/') {
            (None, find_char(s, i + 2, '\n'), line)
        } else {
            (Some(Ok((TokenType::Slash, s.subrange(i, i + 1), line))), i + 1, line)
        }
    } else if c == '"' {
        let j = find_char(s, i + 1, '"');
        let l = line + count_newlines(s.subrange(i + 1, j));
        if j < s.len() {
            (Some(Ok((TokenType::String, s.subrange(i + 1, j), l))), j + 1, l)
        } else {
            (Some(Err((l, "Unterminated string."@))), j, l)
        }
    } else if c == ' ' || c == '\r' || c == '\t' {
        (None, i + 1, line)
    } else if c == '\n' {
        (None, i + 1, line + 1)
    } else if is_digit(c) {
        let j = number_end(s, i + 1);
        (Some(Ok((TokenType::Number, s.subrange(i, j), line))), j, line)
    } else if is_alpha(c) {
        let j = word_end(s, i + 1);
        (Some(Ok((word_kind(s.subrange(i, j)), s.subrange(i, j), line))), j, line)
    } else {
        (Some(Err((line, "Unexpected character"@))), i + 1, line)
    }
}

/// Scanning of `s` from position `i` on line `line`, with the tokens and
/// errors found before `i`: every token in order followed by the end-of-input
/// token when no error was found, else every error in order.
pub open spec fn scan_from(
    s: Seq<char>,
    i: int,
    line: nat,
    tokens: Seq<TokenModel>,
    errors: Seq<ScanErrorModel>,
) -> Result<Seq<TokenModel>, Seq<ScanErrorModel>>
    decreases s.len() - i,
{
    if i < 0 || i >= s.len() {
        if errors.len() == 0 {
            Ok(tokens.push((TokenType::Eof, Seq::empty(), line)))
        } else {
            Err(errors)
        }
    } else {
        let (step, j, l) = scan_step(s, i, line);
        let tokens2 = match step {
            Some(Ok(t)) => tokens.push(t),
            _ => tokens,
        };
        let errors2 = match step {
            Some(Err(e)) => errors.push(e),
            _ => errors,
        };
        // every step advances; the guard only makes that visible to the definition
        if i < j <= s.len() {
            scan_from(s, j, l, tokens2, errors2)
        } else {
            Err(errors2)
        }
    }
}

proof fn lemma_digits_end(s: Seq<char>, i: int)
    requires
        0 <= i <= s.len(),
    ensures
        i <= digits_end(s, i) <= s.len(),
    decreases s.len() - i,
{
    if i < s.len() && is_digit(s[i]) {
        lemma_digits_end(s, i + 1);
    }
}

proof fn lemma_word_end(s: Seq<char>, i: int)
    requires
        0 <= i <= s.len(),
    ensures
        i <= word_end(s, i) <= s.len(),
    decreases s.len() - i,
{
    if i < s.len() && is_alphanumeric(s[i]) {
        lemma_word_end(s, i + 1);
    }
}

proof fn lemma_find_char(s: Seq<char>, i: int, c: char)
    requires
        0 <= i <= s.len(),
    ensures
        i <= find_char(s, i, c) <= s.len(),
    decreases s.len() - i,
{
    if i < s.len() && s[i] != c {
        lemma_find_char(s, i + 1, c);
    }
}

proof fn lemma_drop_last_subrange(s: Seq<char>, i: int, k: int)
    requires
        0 <= i <= k < s.len(),
    ensures
        s.subrange(i, k + 1).drop_last() == s.subrange(i, k),
        s.subrange(i, k + 1).last() == s[k],
{
    assert(s.subrange(i, k + 1).drop_last() =~= s.subrange(i, k));
}

proof fn lemma_count_newlines_bound(s: Seq<char>)
    ensures
        count_newlines(s) <= s.len(),
    decreases s.len(),
{
    if s.len() > 0 {
        lemma_count_newlines_bound(s.drop_last());
    }
}

/// Every scanning step moves forward, stays within the source, and adds at
/// most one line per character it passes.
proof fn lemma_step_advances(s: Seq<char>, i: int, line: nat)
    requires
        0 <= i < s.len(),
    ensures
        ({
            let (step, j, l) = scan_step(s, i, line);
            &&& i < j <= s.len()
            &&& line <= l <= line + (j - i)
        }),
{
    let c = s[i];
    if c == '/' && char_at_is(s, i + 1, '/') {
        lemma_find_char(s, i + 2, '\n');
    } else if c == '"' {
        lemma_find_char(s, i + 1, '"');
        let j = find_char(s, i + 1, '"');
        lemma_count_newlines_bound(s.subrange(i + 1, j));
    } else if is_digit(c) {
        lemma_digits_end(s, i + 1);
        let j = digits_end(s, i + 1);
        if char_at_is(s, j, '.') && j + 1 < s.len() && is_digit(s[j + 1]) {
            lemma_digits_end(s, j + 1);
        }
    } else if is_alpha(c) {
        lemma_word_end(s, i + 1);
    }
}

/// The result of scanning all of `s`.
pub open spec fn lex(s: Seq<char>) -> Result<Seq<TokenModel>, Seq<ScanErrorModel>> {
    scan_from(s, 0, 0, Seq::empty(), Seq::empty())
}

// ---------------------------------------------------------------------------
// Errors

/// A lexical error: the line it was found on and what went wrong.
#[derive(Clone, Debug, PartialEq, Eq)]
pub struct ScannerError {
    pub line: usize,
    pub message: String,
}

impl View for ScannerError {
    type V = ScanErrorModel;

    open spec fn view(&self) -> ScanErrorModel {
        (self.line as nat, self.message@)
    }
}

impl ScannerError {
    pub fn new(line_index: usize, msg: String) -> (r: ScannerError)
        ensures
            r.line == line_index,
            r.message == msg,
    {
        ScannerError { line: line_index, message: msg }
    }

    /// The diagnostic line: `[line n] SyntaxError: message`.
    pub fn diagnostic(&self) -> (r: String)
        ensures
            r@ == "[line "@ + decimal(self.line as nat) + "] SyntaxError: "@ + self.message@,
    {
        let mut r = "[line ".to_owned();
        r = r.concat(decimal_string(self.line).as_str());
        r = r.concat("] SyntaxError: ");
        r.concat(self.message.as_str())
    }
}

/// Whether an executable scan outcome is the one the model describes.
pub open spec fn scan_outcome_is(
    r: Result<Vec<Token>, Vec<ScannerError>>,
    m: Result<Seq<TokenModel>, Seq<ScanErrorModel>>,
) -> bool {
    match (r, m) {
        (Ok(v), Ok(ts)) => v@.map_values(|t: Token| t@) == ts,
        (Err(v), Err(es)) => v@.map_values(|e: ScannerError| e@) == es,
        _ => false,
    }
}

// ---------------------------------------------------------------------------
// The scanner

/// Turns a source buffer into tokens, collecting every lexical error.
pub struct Scanner {
    source: Vec<char>,
    tokens: Vec<Token>,
    start_index: usize,
    current_index: usize,
    line_index: usize,
}

impl Scanner {
    /// The characters being scanned.
    pub closed spec fn source(&self) -> Seq<char> {
        self.source@
    }

    /// Position of the next character to scan.
    pub closed spec fn position(&self) -> int {
        self.current_index as int
    }

    /// Line of the next character to scan.
    pub closed spec fn line(&self) -> nat {
        self.line_index as nat
    }

    /// Tokens found so far.
    pub closed spec fn found(&self) -> Seq<TokenModel> {
        self.tokens@.map_values(|t: Token| t@)
    }

    pub closed spec fn wf(&self) -> bool {
        &&& self.source@.len() <= usize::MAX
        &&& self.line_index <= self.current_index <= self.source@.len()
        &&& self.start_index <= self.current_index
    }

    pub fn new(source_buffer: &str) -> (r: Scanner)
        ensures
            r.wf(),
            r.source() == source_buffer@,
            r.position() == 0,
            r.line() == 0,
            r.found() == Seq::<TokenModel>::empty(),
    {
        let source = chars_of(source_buffer);
        let _ = source.len();
        let r = Scanner {
            source,
            tokens: Vec::new(),
            start_index: 0,
            current_index: 0,
            line_index: 0,
        };
        assert(r.tokens@.map_values(|t: Token| t@) =~= Seq::<TokenModel>::empty());
        r
    }

    /// Scans the rest of the source: every token followed by the end-of-input
    /// token, or, if any lexical error was found, all of them in order.
    pub fn scan_tokens(self) -> (r: Result<Vec<Token>, Vec<ScannerError>>)
        requires
            self.wf(),
        ensures
            scan_outcome_is(
                r,
                scan_from(self.source(), self.position(), self.line(), self.found(), Seq::empty()),
            ),
    {
        let mut s = self;
        let ghost src = s.source@;
        let ghost goal = scan_from(src, s.position(), s.line(), s.found(), Seq::empty());
        let mut errors: Vec<ScannerError> = Vec::new();
        assert(errors@.map_values(|e: ScannerError| e@) =~= Seq::<ScanErrorModel>::empty());
        while s.current_index < s.source.len()
            invariant
                s.wf(),
                s.source@ == src,
                goal == scan_from(
                    src,
                    s.position(),
                    s.line(),
                    s.found(),
                    errors@.map_values(|e: ScannerError| e@),
                ),
            decreases src.len() - s.current_index,
        {
            let ghost before = s;
            let ghost errs = errors@.map_values(|e: ScannerError| e@);
            s.start_index = s.current_index;
            proof {
                lemma_step_advances(src, s.current_index as int, s.line_index as nat);
            }
            let step = s.scan_token();
            match step {
                Some(Ok(t)) => {
                    s.tokens.push(t);
                    assert(s.found() =~= before.found().push(t@));
                },
                Some(Err(e)) => {
                    errors.push(e);
                    assert(errors@.map_values(|e: ScannerError| e@) =~= errs.push(e@));
                },
                None => {},
            }
            assert(s.found() =~= match step_model(step) {
                Some(Ok(t)) => before.found().push(t),
                _ => before.found(),
            }) by {
                if step is Some && step->0 is Ok {
                } else {
                    assert(s.tokens@ =~= before.tokens@);
                }
            }
            assert(errors@.map_values(|e: ScannerError| e@) =~= match step_model(step) {
                Some(Err(e)) => errs.push(e),
                _ => errs,
            });
        }
        if errors.len() == 0 {
            let ghost before = s.found();
            let eof = Token::new(TokenType::Eof, String::new(), s.line_index);
            s.tokens.push(eof);
            assert(s.found() =~= before.push((TokenType::Eof, Seq::empty(), s.line())));
            Ok(s.tokens)
        } else {
            Err(errors)
        }
    }

    /// Scans one lexeme starting at `current_index`.
    fn scan_token(&mut self) -> (r: Option<Result<Token, ScannerError>>)
        requires
            old(self).wf(),
            old(self).start_index == old(self).current_index,
            old(self).current_index < old(self).source@.len(),
        ensures
            final(self).wf(),
            final(self).source@ == old(self).source@,
            final(self).tokens == old(self).tokens,
            ({
                let (step, j, l) = scan_step(
                    old(self).source@,
                    old(self).current_index as int,
                    old(self).line_index as nat,
                );
                &&& step_model(r) == step
                &&& final(self).current_index == j
                &&& final(self).line_index == l
            }),
    {
        let ghost s = self.source@;
        let ghost i = self.current_index as int;
        let c = self.advance();
        if c == '(' {
            Some(Ok(self.build_simple_token(TokenType::LeftParen)))
        } else if c == ')' {
            Some(Ok(self.build_simple_token(TokenType::RightParen)))
        } else if c == '{' {
            Some(Ok(self.build_simple_token(TokenType::LeftBrace)))
        } else if c == '}' {
            Some(Ok(self.build_simple_token(TokenType::RightBrace)))
        } else if c == ',' {
            Some(Ok(self.build_simple_token(TokenType::Comma)))
        } else if c == '.' {
            Some(Ok(self.build_simple_token(TokenType::Dot)))
        } else if c == '-' {
            Some(Ok(self.build_simple_token(TokenType::Minus)))
        } else if c == '+' {
            Some(Ok(self.build_simple_token(TokenType::Plus)))
        } else if c == ';' {
            Some(Ok(self.build_simple_token(TokenType::Semicolon)))
        } else if c == '*' {
            Some(Ok(self.build_simple_token(TokenType::Star)))
        } else if c == '!' {
            let tt = if self.advance_if_equal('=') {
                TokenType::BangEqual
            } else {
                TokenType::Bang
            };
            Some(Ok(self.build_simple_token(tt)))
        } else if c == '=' {
            let tt = if self.advance_if_equal('=') {
                TokenType::EqualEqual
            } else {
                TokenType::Equal
            };
            Some(Ok(self.build_simple_token(tt)))
        } else if c == '<' {
            let tt = if self.advance_if_equal('=') {
                TokenType::LessEqual
            } else {
                TokenType::Less
            };
            Some(Ok(self.build_simple_token(tt)))
        } else if c == '>' {
            let tt = if self.advance_if_equal('=') {
                TokenType::GreaterEqual
            } else {
                TokenType::Greater
            };
            Some(Ok(self.build_simple_token(tt)))
        } else if c == '/' {
            if self.advance_if_equal('/') {
                // a comment runs to the end of the line
                while self.current_index < self.source.len() && self.source[self.current_index]
                    != '\n'
                    invariant
                        self.wf(),
                        self.source@ == s,
                        i + 2 <= self.current_index <= s.len(),
                        self.line_index == old(self).line_index,
                        self.tokens == old(self).tokens,
                        find_char(s, i + 2, '\n') == find_char(s, self.current_index as int, '\n'),
                    decreases s.len() - self.current_index,
                {
                    self.current_index = self.current_index + 1;
                }
                None
            } else {
                Some(Ok(self.build_simple_token(TokenType::Slash)))
            }
        } else if c == '"' {
            self.scan_string()
        } else if c == ' ' || c == '\r' || c == '\t' {
            None
        } else if c == '\n' {
            self.line_index = self.line_index + 1;
            None
        } else if '0' <= c && c <= '9' {
            Some(Ok(self.scan_number()))
        } else if ('a' <= c && c <= 'z') || ('A' <= c && c <= 'Z') || c == '_' {
            Some(Ok(self.scan_identifier()))
        } else {
            Some(Err(ScannerError::new(self.line_index, "Unexpected character".to_owned())))
        }
    }

    /// A token whose lexeme is the source between `start_index` and `current_index`.
    fn build_simple_token(&self, token_type: TokenType) -> (r: Token)
        requires
            self.wf(),
        ensures
            r@ == (
                token_type,
                self.source@.subrange(self.start_index as int, self.current_index as int),
                self.line_index as nat,
            ),
    {
        Token::new(
            token_type,
            string_of(&self.source, self.start_index, self.current_index),
            self.line_index,
        )
    }

    /// A token with the given lexeme on the current line.
    fn build_complex_token(&self, token_type: TokenType, lexeme: String) -> (r: Token)
        ensures
            r@ == (token_type, lexeme@, self.line_index as nat),
    {
        Token::new(token_type, lexeme, self.line_index)
    }

    /// Scans a string literal whose opening quote was just consumed.
    fn scan_string(&mut self) -> (r: Option<Result<Token, ScannerError>>)
        requires
            old(self).wf(),
            old(self).current_index == old(self).start_index + 1,
            old(self).source@[old(self).start_index as int] == '"',
        ensures
            final(self).wf(),
            final(self).source@ == old(self).source@,
            final(self).tokens == old(self).tokens,
            ({
                let (step, j, l) = scan_step(
                    old(self).source@,
                    old(self).start_index as int,
                    old(self).line_index as nat,
                );
                &&& step_model(r) == step
                &&& final(self).current_index == j
                &&& final(self).line_index == l
            }),
    {
        let ghost s = self.source@;
        let ghost i0 = self.current_index as int;
        let ghost line0 = self.line_index as nat;
        while self.current_index < self.source.len() && self.source[self.current_index] != '"'
            invariant
                self.wf(),
                self.source@ == s,
                self.tokens == old(self).tokens,
                self.start_index == old(self).start_index,
                i0 == self.start_index + 1,
                line0 == old(self).line_index,
                i0 <= self.current_index <= s.len(),
                find_char(s, i0, '"') == find_char(s, self.current_index as int, '"'),
                self.line_index == line0 + count_newlines(
                    s.subrange(i0, self.current_index as int),
                ),
            decreases s.len() - self.current_index,
        {
            let ghost k = self.current_index as int;
            proof {
                lemma_drop_last_subrange(s, i0, k);
            }
            if self.source[self.current_index] == '\n' {
                self.line_index = self.line_index + 1;
            }
            self.current_index = self.current_index + 1;
        }
        if self.current_index >= self.source.len() {
            return Some(Err(ScannerError::new(self.line_index, "Unterminated string.".to_owned())));
        }
        // the closing quote

        self.current_index = self.current_index + 1;
        let lexeme = string_of(&self.source, self.start_index + 1, self.current_index - 1);
        Some(Ok(self.build_complex_token(TokenType::String, lexeme)))
    }

    /// Scans a number whose first digit was just consumed.
    fn scan_number(&mut self) -> (r: Token)
        requires
            old(self).wf(),
            old(self).current_index == old(self).start_index + 1,
        ensures
            final(self).wf(),
            final(self).source@ == old(self).source@,
            final(self).tokens == old(self).tokens,
            final(self).line_index == old(self).line_index,
            final(self).current_index == number_end(
                old(self).source@,
                old(self).current_index as int,
            ),
            r@ == (
                TokenType::Number,
                old(self).source@.subrange(
                    old(self).start_index as int,
                    final(self).current_index as int,
                ),
                old(self).line_index as nat,
            ),
    {
        self.skip_digits();
        if self.peek() == Some('.') && Scanner::is_digit(self.peek_next()) {
            // the "."
            self.current_index = self.current_index + 1;
            self.skip_digits();
        }
        let lexeme = string_of(&self.source, self.start_index, self.current_index);
        self.build_complex_token(TokenType::Number, lexeme)
    }

    /// Moves past a run of digits.
    fn skip_digits(&mut self)
        requires
            old(self).wf(),
        ensures
            final(self).wf(),
            final(self).source@ == old(self).source@,
            final(self).tokens == old(self).tokens,
            final(self).line_index == old(self).line_index,
            final(self).start_index == old(self).start_index,
            final(self).current_index == digits_end(
                old(self).source@,
                old(self).current_index as int,
            ),
    {
        let ghost s = self.source@;
        let ghost i0 = self.current_index as int;
        while Scanner::is_digit(self.peek())
            invariant
                self.wf(),
                self.source@ == s,
                self.tokens == old(self).tokens,
                self.line_index == old(self).line_index,
                self.start_index == old(self).start_index,
                i0 <= self.current_index,
                digits_end(s, i0) == digits_end(s, self.current_index as int),
            decreases s.len() - self.current_index,
        {
            self.current_index = self.current_index + 1;
        }
    }

    /// Scans an identifier or reserved word whose first character was just consumed.
    fn scan_identifier(&mut self) -> (r: Token)
        requires
            old(self).wf(),
            old(self).current_index == old(self).start_index + 1,
        ensures
            final(self).wf(),
            final(self).source@ == old(self).source@,
            final(self).tokens == old(self).tokens,
            final(self).line_index == old(self).line_index,
            final(self).current_index == word_end(old(self).source@, old(self).current_index as int),
            ({
                let t = old(self).source@.subrange(
                    old(self).start_index as int,
                    final(self).current_index as int,
                );
                r@ == (word_kind(t), t, old(self).line_index as nat)
            }),
    {
        let ghost s = self.source@;
        let ghost i0 = self.current_index as int;
        while Scanner::is_alphanumeric(self.peek())
            invariant
                self.wf(),
                self.source@ == s,
                self.tokens == old(self).tokens,
                self.line_index == old(self).line_index,
                self.start_index == old(self).start_index,
                i0 <= self.current_index,
                word_end(s, i0) == word_end(s, self.current_index as int),
            decreases s.len() - self.current_index,
        {
            self.current_index = self.current_index + 1;
        }
        let token_type = keyword_type(&self.source, self.start_index, self.current_index);
        let text = string_of(&self.source, self.start_index, self.current_index);
        self.build_complex_token(token_type, text)
    }

    /// Returns the current character and moves past it.
    fn advance(&mut self) -> (c: char)
        requires
            old(self).wf(),
            old(self).current_index < old(self).source@.len(),
        ensures
            final(self).wf(),
            c == old(self).source@[old(self).current_index as int],
            final(self).current_index == old(self).current_index + 1,
            final(self).source@ == old(self).source@,
            final(self).tokens == old(self).tokens,
            final(self).line_index == old(self).line_index,
            final(self).start_index == old(self).start_index,
    {
        let c = self.source[self.current_index];
        self.current_index = self.current_index + 1;
        c
    }

    /// Moves past the current character only when it is `expected`.
    fn advance_if_equal(&mut self, expected: char) -> (r: bool)
        requires
            old(self).wf(),
        ensures
            final(self).wf(),
            r == char_at_is(old(self).source@, old(self).current_index as int, expected),
            final(self).current_index == old(self).current_index + if r {
                1int
            } else {
                0int
            },
            final(self).source@ == old(self).source@,
            final(self).tokens == old(self).tokens,
            final(self).line_index == old(self).line_index,
            final(self).start_index == old(self).start_index,
    {
        if self.current_index < self.source.len() && self.source[self.current_index] == expected {
            self.current_index = self.current_index + 1;
            true
        } else {
            false
        }
    }

    /// The current character, if any.
    fn peek(&self) -> (r: Option<char>)
        ensures
            r == (if self.current_index < self.source@.len() {
                Some(self.source@[self.current_index as int])
            } else {
                None
            }),
    {
        if self.current_index < self.source.len() {
            Some(self.source[self.current_index])
        } else {
            None
        }
    }

    /// The character after the current one, if any.
    fn peek_next(&self) -> (r: Option<char>)
        requires
            self.wf(),
            self.current_index < self.source@.len(),
        ensures
            r == (if self.current_index + 1 < self.source@.len() {
                Some(self.source@[self.current_index + 1])
            } else {
                None
            }),
    {
        if self.current_index + 1 < self.source.len() {
            Some(self.source[self.current_index + 1])
        } else {
            None
        }
    }

    fn is_digit(c: Option<char>) -> (r: bool)
        ensures
            r == (c is Some && is_digit(c->0)),
    {
        match c {
            Some(d) => '0' <= d && d <= '9',
            None => false,
        }
    }

    fn is_alpha(c: Option<char>) -> (r: bool)
        ensures
            r == (c is Some && is_alpha(c->0)),
    {
        match c {
            Some(d) => ('a' <= d && d <= 'z') || ('A' <= d && d <= 'Z') || d == '_',
            None => false,
        }
    }

    fn is_alphanumeric(c: Option<char>) -> (r: bool)
        ensures
            r == (c is Some && is_alphanumeric(c->0)),
    {
        Scanner::is_alpha(c) || Scanner::is_digit(c)
    }
}

/// The model of what `scan_token` returns.
pub open spec fn step_model(r: Option<Result<Token, ScannerError>>) -> StepModel {
    match r {
        None => None,
        Some(Ok(t)) => Some(Ok(t@)),
        Some(Err(e)) => Some(Err(e@)),
    }
}

/// Kind of the word `chars[from..to]`: a reserved word's kind, or `Identifier`.
fn keyword_type(chars: &Vec<char>, from: usize, to: usize) -> (r: TokenType)
    requires
        from <= to <= chars@.len(),
    ensures
        r == word_kind(chars@.subrange(from as int, to as int)),
{
    if spells(chars, from, to, "and") {
        TokenType::And
    } else if spells(chars, from, to, "class") {
        TokenType::Class
    } else if spells(chars, from, to, "else") {
        TokenType::Else
    } else if spells(chars, from, to, "false") {
        TokenType::False
    } else if spells(chars, from, to, "for") {
        TokenType::For
    } else if spells(chars, from, to, "fun") {
        TokenType::Fun
    } else if spells(chars, from, to, "if") {
        TokenType::If
    } else if spells(chars, from, to, "nil") {
        TokenType::Nil
    } else if spells(chars, from, to, "or") {
        TokenType::Or
    } else if spells(chars, from, to, "print") {
        TokenType::Print
    } else if spells(chars, from, to, "return") {
        TokenType::Return
    } else if spells(chars, from, to, "super") {
        TokenType::Super
    } else if spells(chars, from, to, "this") {
        TokenType::This
    } else if spells(chars, from, to, "true") {
        TokenType::True
    } else if spells(chars, from, to, "var") {
        TokenType::Var
    } else if spells(chars, from, to, "while") {
        TokenType::While
    } else {
        TokenType::Identifier
    }
}

/// No scanning step yields an end-of-input token.
proof fn lemma_step_not_eof(s: Seq<char>, i: int, line: nat)
    requires
        0 <= i < s.len(),
    ensures
        scan_step(s, i, line).0 matches Some(Ok(t)) ==> t.0 != TokenType::Eof,
{
}

/// A successful scan ends with its only end-of-input token.
proof fn lemma_scan_from_ends_with_eof(
    s: Seq<char>,
    i: int,
    line: nat,
    tokens: Seq<TokenModel>,
    errors: Seq<ScanErrorModel>,
)
    requires
        forall|k: int| 0 <= k < tokens.len() ==> tokens[k].0 != TokenType::Eof,
    ensures
        scan_from(s, i, line, tokens, errors) matches Ok(ts) ==> {
            &&& ts.len() > 0
            &&& ts.last().0 == TokenType::Eof
            &&& forall|k: int| 0 <= k < ts.len() - 1 ==> ts[k].0 != TokenType::Eof
        },
    decreases s.len() - i,
{
    if 0 <= i < s.len() {
        let (step, j, l) = scan_step(s, i, line);
        lemma_step_not_eof(s, i, line);
        let tokens2 = match step {
            Some(Ok(t)) => tokens.push(t),
            _ => tokens,
        };
        let errors2 = match step {
            Some(Err(e)) => errors.push(e),
            _ => errors,
        };
        if i < j <= s.len() {
            assert forall|k: int| 0 <= k < tokens2.len() implies tokens2[k].0 != TokenType::Eof by {
                if k < tokens.len() {
                    assert(tokens2[k] == tokens[k]);
                }
            }
            lemma_scan_from_ends_with_eof(s, j, l, tokens2, errors2);
        }
    } else {
        if errors.len() == 0 {
            let ts = tokens.push((TokenType::Eof, Seq::empty(), line));
            assert forall|k: int| 0 <= k < ts.len() - 1 implies ts[k].0 != TokenType::Eof by {
                assert(ts[k] == tokens[k]);
            }
        }
    }
}

/// A token a step yields stands on the line where the next step starts.
proof fn lemma_step_token_line(s: Seq<char>, i: int, line: nat)
    requires
        0 <= i < s.len(),
    ensures
        scan_step(s, i, line).0 matches Some(Ok(t)) ==> t.2 == scan_step(s, i, line).2,
{
}

/// The lines of a successful scan's tokens never decrease.
proof fn lemma_scan_from_lines_sorted(
    s: Seq<char>,
    i: int,
    line: nat,
    tokens: Seq<TokenModel>,
    errors: Seq<ScanErrorModel>,
)
    requires
        forall|k: int| 0 <= k < tokens.len() ==> tokens[k].2 <= line,
        forall|a: int, b: int| 0 <= a <= b < tokens.len() ==> tokens[a].2 <= tokens[b].2,
    ensures
        scan_from(s, i, line, tokens, errors) matches Ok(ts) ==> forall|a: int, b: int|
            0 <= a <= b < ts.len() ==> ts[a].2 <= ts[b].2,
    decreases s.len() - i,
{
    if 0 <= i < s.len() {
        let (step, j, l) = scan_step(s, i, line);
        lemma_step_advances(s, i, line);
        lemma_step_token_line(s, i, line);
        let tokens2 = match step {
            Some(Ok(t)) => tokens.push(t),
            _ => tokens,
        };
        let errors2 = match step {
            Some(Err(e)) => errors.push(e),
            _ => errors,
        };
        if i < j <= s.len() {
            assert forall|k: int| 0 <= k < tokens2.len() implies tokens2[k].2 <= l by {
                if k < tokens.len() {
                    assert(tokens2[k] == tokens[k]);
                }
            }
            assert forall|a: int, b: int| 0 <= a <= b < tokens2.len() implies tokens2[a].2
                <= tokens2[b].2 by {
                if b < tokens.len() {
                    assert(tokens2[a] == tokens[a]);
                    assert(tokens2[b] == tokens[b]);
                } else if a < tokens.len() {
                    assert(tokens2[a] == tokens[a]);
                }
            }
            lemma_scan_from_lines_sorted(s, j, l, tokens2, errors2);
        }
    } else {
        if errors.len() == 0 {
            let ts = tokens.push((TokenType::Eof, Seq::empty(), line));
            assert forall|a: int, b: int| 0 <= a <= b < ts.len() implies ts[a].2 <= ts[b].2 by {
                if b < tokens.len() {
                    assert(ts[a] == tokens[a]);
                    assert(ts[b] == tokens[b]);
                } else if a < tokens.len() {
                    assert(ts[a] == tokens[a]);
                }
            }
        }
    }
}

/// Scans `source`: every token followed by the end-of-input token, or, if
/// any lexical error was found, all of them in order. The tokens end with
/// their only end-of-input token, and their lines never decrease.
pub fn scan(source: &str) -> (r: Result<Vec<Token>, Vec<ScannerError>>)
    ensures
        scan_outcome_is(r, lex(source@)),
        r matches Ok(v) ==> {
            &&& v@.len() > 0
            &&& v@.last().token_type == TokenType::Eof
            &&& forall|k: int| 0 <= k < v@.len() - 1 ==> v@[k].token_type != TokenType::Eof
            &&& forall|a: int, b: int| 0 <= a <= b < v@.len() ==> v@[a].line <= v@[b].line
        },
{
    let r = Scanner::new(source).scan_tokens();
    proof {
        lemma_scan_from_ends_with_eof(source@, 0, 0, Seq::empty(), Seq::empty());
        lemma_scan_from_lines_sorted(source@, 0, 0, Seq::empty(), Seq::empty());
        if r is Ok {
            let v = r->Ok_0@;
            let ts = v.map_values(|t: Token| t@);
            assert forall|k: int| 0 <= k < v.len() implies v[k].token_type == ts[k].0 && v[k].line
                == ts[k].2 by {}
            assert forall|a: int, b: int| 0 <= a <= b < v.len() implies v[a].line <= v[b].line by {
                assert(v[a].line == ts[a].2);
                assert(v[b].line == ts[b].2);
            }
        }
    }
    r
}

} // verus!
