//! The scanner: from source text to tokens and lexical errors.
//!
//! What the scanner produces is stated by `scan_one`, which says what one
//! lexeme at a given position is, and `scan_from`, which chains lexemes to
//! the end of the text. An error does not end the scan.

use vstd::prelude::*;
use vstd::string::StringExecFns;
use crate::errors::{ScannerError, ScannerErrorView};
use crate::number::{bits_of_text, decimal_text, Number};
use crate::text::{chars_of, string_of};
use crate::token::{keyword, keyword_of, Literal, LiteralView, Token, TokenType, TokenView};

verus! {

/// Whether a character is alphanumeric as Unicode defines it.
pub uninterp spec fn alphanumeric(c: char) -> bool;

/// `char::is_alphanumeric` tells whether a character has the Unicode
/// property Alphabetic or is in one of the categories of numbers. The
/// contract names the result and claims only that it is a function of the
/// character.
pub assume_specification[ char::is_alphanumeric ](c: char) -> (r: bool)
    ensures
        r == alphanumeric(c),
;

/// Whether a character is a decimal digit.
pub open spec fn is_digit(c: char) -> bool {
    '0' <= c && c <= '9'
}

/// Whether a character can start an identifier.
pub open spec fn is_alpha(c: char) -> bool {
    ('a' <= c && c <= 'z') || ('A' <= c && c <= 'Z') || c == '_'
}

/// Whether a character can continue an identifier.
pub open spec fn is_word(c: char) -> bool {
    alphanumeric(c) || c == '_'
}

/// The kinds of runs of characters that the scanner skips over in one go.
pub enum Run {
    /// Decimal digits.
    Digits,
    /// Characters that continue an identifier.
    Word,
    /// Everything up to the end of the line.
    Comment,
    /// Everything up to the closing quote.
    Text,
}

/// Whether a character belongs to a run of the given kind.
pub open spec fn in_run(run: Run, c: char) -> bool {
    match run {
        Run::Digits => is_digit(c),
        Run::Word => is_word(c),
        Run::Comment => c != '\n',
        Run::Text => c != '"',
    }
}

/// The first position at or after `from` whose character does not belong
/// to the run, or the length of the text.
pub open spec fn run_end(source: Seq<char>, from: int, run: Run) -> int
    decreases source.len() - from,
{
    if from < 0 || from >= source.len() || !in_run(run, source[from]) {
        from
    } else {
        run_end(source, from + 1, run)
    }
}

/// The line number after one more line: it stops counting at the largest
/// number that fits.
pub open spec fn next_line(line: usize) -> usize {
    if line < usize::MAX {
        (line + 1) as usize
    } else {
        line
    }
}

/// The line number after the characters `source[from..to]`, where it is
/// `line` before them.
pub open spec fn line_after(source: Seq<char>, from: int, to: int, line: usize) -> usize
    decreases to - from,
{
    if to <= from || to > source.len() || from < 0 {
        line
    } else if source[to - 1] == '\n' {
        next_line(line_after(source, from, to - 1, line))
    } else {
        line_after(source, from, to - 1, line)
    }
}

/// What one lexeme is.
pub enum Lexeme {
    /// A token.
    Token(TokenView),
    /// White space or a comment.
    Skip,
    /// A lexical error.
    Error(ScannerErrorView),
}

/// One lexeme with where the next one starts and the line number there.
pub struct Scanned {
    pub lexeme: Lexeme,
    pub end: int,
    pub line: usize,
}

/// The value that a keyword token carries: the two booleans and `nil` are
/// literals.
pub open spec fn keyword_literal(token_type: TokenType) -> Option<LiteralView> {
    match token_type {
        TokenType::True => Some(LiteralView::Bool(true)),
        TokenType::False => Some(LiteralView::Bool(false)),
        TokenType::Nil => Some(LiteralView::Nil),
        _ => None,
    }
}

/// A token without a value, made of `source[start..end]`.
pub open spec fn plain(
    source: Seq<char>,
    start: int,
    end: int,
    token_type: TokenType,
    line: usize,
) -> Scanned {
    Scanned {
        lexeme: Lexeme::Token(
            TokenView { token_type, literal: None, lexeme: source.subrange(start, end), line },
        ),
        end,
        line,
    }
}

/// A one- or two-character operator: the longer one where `=` follows.
pub open spec fn operator(
    source: Seq<char>,
    start: int,
    short: TokenType,
    long: TokenType,
    line: usize,
) -> Scanned {
    if start + 1 < source.len() && source[start + 1] == '=' {
        plain(source, start, start + 2, long, line)
    } else {
        plain(source, start, start + 1, short, line)
    }
}

/// Where a number that starts at `start` ends: after its digits, and after
/// a fraction where a dot and a digit follow them.
pub open spec fn number_end(source: Seq<char>, start: int) -> int {
    let whole = run_end(source, start + 1, Run::Digits);
    if whole + 1 < source.len() && source[whole] == '.' && is_digit(source[whole + 1]) {
        run_end(source, whole + 1 + 1, Run::Digits)
    } else {
        whole
    }
}

/// The lexeme that starts at `start`, on line `line`.
pub open spec fn scan_one(source: Seq<char>, start: int, line: usize) -> Scanned
    recommends
        0 <= start < source.len(),
{
    let c = source[start];
    if c == '(' {
        plain(source, start, start + 1, TokenType::LeftParen, line)
    } else if c == ')' {
        plain(source, start, start + 1, TokenType::RightParen, line)
    } else if c == '{' {
        plain(source, start, start + 1, TokenType::LeftBrace, line)
    } else if c == '}' {
        plain(source, start, start + 1, TokenType::RightBrace, line)
    } else if c == ',' {
        plain(source, start, start + 1, TokenType::Comma, line)
    } else if c == '.' {
        plain(source, start, start + 1, TokenType::Dot, line)
    } else if c == '-' {
        plain(source, start, start + 1, TokenType::Minus, line)
    } else if c == '+' {
        plain(source, start, start + 1, TokenType::Plus, line)
    } else if c == ';' {
        plain(source, start, start + 1, TokenType::Semicolon, line)
    } else if c == '*' {
        plain(source, start, start + 1, TokenType::Star, line)
    } else if c == '!' {
        operator(source, start, TokenType::Bang, TokenType::BangEqual, line)
    } else if c == '=' {
        operator(source, start, TokenType::Equal, TokenType::EqualEqual, line)
    } else if c == '<' {
        operator(source, start, TokenType::Less, TokenType::LessEqual, line)
    } else if c == '>' {
        operator(source, start, TokenType::Greater, TokenType::GreaterEqual, line)
    } else if c == '/' {
        if start + 1 < source.len() && source[start + 1] == '/' {
            Scanned { lexeme: Lexeme::Skip, end: run_end(source, start + 2, Run::Comment), line }
        } else {
            plain(source, start, start + 1, TokenType::Slash, line)
        }
    } else if c == ' ' || c == '\r' || c == '\t' {
        Scanned { lexeme: Lexeme::Skip, end: start + 1, line }
    } else if c == '\n' {
        Scanned { lexeme: Lexeme::Skip, end: start + 1, line: next_line(line) }
    } else if c == '"' {
        let close = run_end(source, start + 1, Run::Text);
        let last_line = line_after(source, start + 1, close, line);
        if close >= source.len() {
            Scanned {
                lexeme: Lexeme::Error(
                    ScannerErrorView::ScannerError(last_line, "Unterminated string"@),
                ),
                end: close,
                line: last_line,
            }
        } else {
            Scanned {
                lexeme: Lexeme::Token(
                    TokenView {
                        token_type: TokenType::String,
                        literal: Some(LiteralView::String(source.subrange(start + 1, close))),
                        lexeme: source.subrange(start, close + 1),
                        line: last_line,
                    },
                ),
                end: close + 1,
                line: last_line,
            }
        }
    } else if is_digit(c) {
        let end = number_end(source, start);
        let text = source.subrange(start, end);
        match bits_of_text(text) {
            Some(bits) => Scanned {
                lexeme: Lexeme::Token(
                    TokenView {
                        token_type: TokenType::Number,
                        literal: Some(LiteralView::Number(bits)),
                        lexeme: text,
                        line,
                    },
                ),
                end,
                line,
            },
            None => Scanned {
                lexeme: Lexeme::Error(
                    ScannerErrorView::ScannerError(line, "Invalid number: "@ + text),
                ),
                end,
                line,
            },
        }
    } else if is_alpha(c) {
        let end = run_end(source, start + 1, Run::Word);
        let text = source.subrange(start, end);
        match keyword_of(text) {
            Some(token_type) => Scanned {
                lexeme: Lexeme::Token(
                    TokenView {
                        token_type,
                        literal: keyword_literal(token_type),
                        lexeme: text,
                        line,
                    },
                ),
                end,
                line,
            },
            None => plain(source, start, end, TokenType::Identifier, line),
        }
    } else {
        Scanned {
            lexeme: Lexeme::Error(
                ScannerErrorView::ScannerError(line, "Invalid character: "@.push(c)),
            ),
            end: start + 1,
            line,
        }
    }
}

/// A lexeme ends after the position where it starts, and inside the text.
pub proof fn lemma_scan_one_advances(source: Seq<char>, start: int, line: usize)
    requires
        0 <= start < source.len(),
    ensures
        start < scan_one(source, start, line).end <= source.len(),
{
    lemma_run_end_bounds(source, start + 1, Run::Digits);
    lemma_run_end_bounds(source, start + 1, Run::Word);
    lemma_run_end_bounds(source, start + 1, Run::Text);
    if start + 2 <= source.len() {
        lemma_run_end_bounds(source, start + 2, Run::Comment);
    }
    let whole = run_end(source, start + 1, Run::Digits);
    if whole + 2 <= source.len() {
        lemma_run_end_bounds(source, whole + 2, Run::Digits);
    }
}

/// Every character from the start of a run up to its end belongs to the run.
pub proof fn lemma_run_members(source: Seq<char>, from: int, run: Run)
    requires
        0 <= from <= source.len(),
    ensures
        forall|i: int| from <= i < run_end(source, from, run) ==> in_run(run, #[trigger] source[i]),
    decreases source.len() - from,
{
    if from < source.len() && in_run(run, source[from]) {
        lemma_run_members(source, from + 1, run);
    }
}

/// Where a string is not closed, one error stands for the rest of the
/// text: the scan adds that error, no token, and ends.
pub proof fn law_unterminated_string(
    source: Seq<char>,
    start: int,
    line: usize,
    tokens: Seq<TokenView>,
    errors: Seq<ScannerErrorView>,
)
    requires
        0 <= start < source.len(),
        source[start] == '"',
        forall|i: int| start < i < source.len() ==> source[i] != '"',
    ensures
        scan_from(source, start, line, tokens, errors) == (Scan {
            tokens,
            errors: errors.push(
                ScannerErrorView::ScannerError(
                    line_after(source, start + 1, source.len() as int, line),
                    "Unterminated string"@,
                ),
            ),
            line: line_after(source, start + 1, source.len() as int, line),
        }),
{
    reveal_with_fuel(scan_from, 3);
    lemma_run_to_the_end(source, start + 1, Run::Text);
}

/// A run that no character interrupts ends with the text.
pub proof fn lemma_run_to_the_end(source: Seq<char>, from: int, run: Run)
    requires
        0 <= from <= source.len(),
        forall|i: int| from <= i < source.len() ==> in_run(run, #[trigger] source[i]),
    ensures
        run_end(source, from, run) == source.len(),
    decreases source.len() - from,
{
    if from < source.len() {
        lemma_run_to_the_end(source, from + 1, run);
    }
}

/// A run ends at or after the position where it starts, and inside the
/// text.
pub proof fn lemma_run_end_bounds(source: Seq<char>, from: int, run: Run)
    requires
        0 <= from <= source.len(),
    ensures
        from <= run_end(source, from, run) <= source.len(),
    decreases source.len() - from,
{
    if from < source.len() && in_run(run, source[from]) {
        lemma_run_end_bounds(source, from + 1, run);
    }
}

/// The tokens and the errors of a text.
pub struct Scan {
    pub tokens: Seq<TokenView>,
    pub errors: Seq<ScannerErrorView>,
    pub line: usize,
}

/// The tokens and the errors of `source[from..]`, where `from` is on line
/// `line`, after those given; and the line on which the text ends.
pub open spec fn scan_from(
    source: Seq<char>,
    from: int,
    line: usize,
    tokens: Seq<TokenView>,
    errors: Seq<ScannerErrorView>,
) -> Scan
    decreases source.len() - from,
{
    if from < 0 || from >= source.len() {
        Scan { tokens, errors, line }
    } else {
        let one = scan_one(source, from, line);
        if one.end <= from || one.end > source.len() {
            Scan { tokens, errors, line }
        } else {
            match one.lexeme {
                Lexeme::Token(token) => scan_from(
                    source,
                    one.end,
                    one.line,
                    tokens.push(token),
                    errors,
                ),
                Lexeme::Skip => scan_from(source, one.end, one.line, tokens, errors),
                Lexeme::Error(error) => scan_from(
                    source,
                    one.end,
                    one.line,
                    tokens,
                    errors.push(error),
                ),
            }
        }
    }
}

/// The token that ends every scan.
pub open spec fn end_token(line: usize) -> TokenView {
    TokenView { token_type: TokenType::Eof, literal: None, lexeme: Seq::empty(), line }
}

/// The tokens of a text: its lexemes in order, then the end token.
pub open spec fn tokens_of(source: Seq<char>) -> Seq<TokenView> {
    let scan = scan_from(source, 0, 1, Seq::empty(), Seq::empty());
    scan.tokens.push(end_token(scan.line))
}

/// The lexical errors of a text, in order.
pub open spec fn errors_of(source: Seq<char>) -> Seq<ScannerErrorView> {
    scan_from(source, 0, 1, Seq::empty(), Seq::empty()).errors
}

/// The views of a sequence of tokens.
pub open spec fn tokens_view(tokens: Seq<Token>) -> Seq<TokenView> {
    Seq::new(tokens.len(), |i: int| tokens[i]@)
}

/// The views of a sequence of scanner errors.
pub open spec fn errors_view(errors: Seq<ScannerError>) -> Seq<ScannerErrorView> {
    Seq::new(errors.len(), |i: int| errors[i]@)
}

/// The scanner of a piece of source text.
#[derive(Debug)]
pub struct Scanner {
    pub source: String,
}

impl Scanner {
    /// A scanner for the text.
    pub fn new(source: String) -> (r: Scanner)
        ensures
            r.source == source,
    {
        Scanner { source }
    }

    /// Scans the whole text: its tokens, ended by the end token, and its
    /// lexical errors.
    pub fn scan_tokens(&self) -> (r: (Vec<Token>, Vec<ScannerError>))
        ensures
            tokens_view(r.0@) == tokens_of(self.source@),
            errors_view(r.1@) == errors_of(self.source@),
    {
        let mut scanner = CharScanner::new(chars_of(self.source.as_str()));
        scanner.scan_tokens()
    }
}

/// The scanner's cursor over the characters of the text: where the
/// current lexeme starts, the position reached, and the line there.
#[derive(Debug)]
pub struct CharScanner {
    pub source: Vec<char>,
    pub start: usize,
    pub current: usize,
    pub line: usize,
}

/// What the result of scanning one lexeme stands for.
pub open spec fn lexeme_view(r: Result<Option<Token>, ScannerError>) -> Lexeme {
    match r {
        Ok(Some(token)) => Lexeme::Token(token@),
        Ok(None) => Lexeme::Skip,
        Err(error) => Lexeme::Error(error@),
    }
}

impl CharScanner {
    /// Whether the cursor lies inside the text and the lexeme's start
    /// before it.
    pub open spec fn wf(&self) -> bool {
        self.start <= self.current <= self.source@.len()
    }

    /// A cursor at the start of the text, on line 1.
    pub fn new(source: Vec<char>) -> (r: CharScanner)
        ensures
            r.wf(),
            r.source == source,
            r.start == 0,
            r.current == 0,
            r.line == 1,
    {
        CharScanner { source, start: 0, current: 0, line: 1 }
    }

    /// Whether the cursor is at the end of the text.
    pub fn is_eof(&self) -> (r: bool)
        ensures
            r == (self.current >= self.source@.len()),
            self.source@.len() <= usize::MAX,
    {
        self.current >= self.source.len()
    }

    /// The character at the cursor; `'\0'` at the end of the text.
    pub fn peek(&self) -> (r: char)
        ensures
            r == (if self.current < self.source@.len() {
                self.source@[self.current as int]
            } else {
                '\0'
            }),
            self.source@.len() <= usize::MAX,
    {
        if self.is_eof() {
            '\0'
        } else {
            self.source[self.current]
        }
    }

    /// The character after the one at the cursor; `'\0'` where the text
    /// has none.
    pub fn peek_next(&self) -> (r: char)
        ensures
            r == (if self.current + 1 < self.source@.len() {
                self.source@[self.current + 1]
            } else {
                '\0'
            }),
    {
        if self.current >= self.source.len() || self.current + 1 >= self.source.len() {
            '\0'
        } else {
            self.source[self.current + 1]
        }
    }

    /// Moves the cursor past the character `c` if that is the character at
    /// the cursor; says whether it did.
    pub fn is_match(&mut self, c: char) -> (r: bool)
        ensures
            r == (old(self).current < old(self).source@.len() && old(self).source@[old(
                self,
            ).current as int] == c),
            final(self).current == (if r {
                old(self).current + 1
            } else {
                old(self).current as int
            }),
            final(self).source == old(self).source,
            final(self).start == old(self).start,
            final(self).line == old(self).line,
    {
        if self.is_eof() {
            return false;
        }
        if self.source[self.current] != c {
            return false;
        }
        self.current += 1;
        true
    }

    /// Moves the cursor past one character; at the end of the text it
    /// stays where it is.
    pub fn advance(&mut self)
        ensures
            final(self).current == (if old(self).current < old(self).source@.len() {
                old(self).current + 1
            } else {
                old(self).current as int
            }),
            final(self).source == old(self).source,
            final(self).start == old(self).start,
            final(self).line == old(self).line,
    {
        if self.current < self.source.len() {
            self.current += 1;
        }
    }

    /// The text of the current lexeme: from its start to the cursor.
    pub fn current_lexeme(&self) -> (r: String)
        requires
            self.wf(),
        ensures
            r@ == self.source@.subrange(self.start as int, self.current as int),
    {
        string_of(&self.source, self.start, self.current)
    }

    /// A token of the given type, without a value, for the current lexeme.
    pub fn build_current_token(&self, token_type: TokenType) -> (r: Option<Token>)
        requires
            self.wf(),
        ensures
            r matches Some(token) && token@ == (TokenView {
                token_type,
                literal: None,
                lexeme: self.source@.subrange(self.start as int, self.current as int),
                line: self.line,
            }),
    {
        self.build_token_with_literal(token_type, None)
    }

    /// A token of the given type, with the value given, for the current
    /// lexeme.
    pub fn build_token_with_literal(&self, token_type: TokenType, literal: Option<Literal>) -> (r:
        Option<Token>)
        requires
            self.wf(),
        ensures
            r matches Some(token) && token == (Token {
                token_type,
                literal,
                lexeme: token.lexeme,
                line: self.line,
            }) && token.lexeme@ == self.source@.subrange(self.start as int, self.current as int),
    {
        Some(Token::new(token_type, self.current_lexeme(), literal, self.line))
    }

    /// Moves the cursor to the end of the run that starts at it.
    fn skip_run(&mut self, run: Run)
        requires
            old(self).wf(),
        ensures
            final(self).wf(),
            final(self).current == run_end(old(self).source@, old(self).current as int, run),
            final(self).source == old(self).source,
            final(self).start == old(self).start,
            final(self).line == old(self).line,
    {
        loop
            invariant
                self.wf(),
                self.source == old(self).source,
                self.start == old(self).start,
                self.line == old(self).line,
                run_end(old(self).source@, old(self).current as int, run) == run_end(
                    self.source@,
                    self.current as int,
                    run,
                ),
            decreases self.source@.len() - self.current,
        {
            if self.is_eof() {
                return ;
            }
            let c = self.source[self.current];
            let inside = match run {
                Run::Digits => c >= '0' && c <= '9',
                Run::Word => c.is_alphanumeric() || c == '_',
                Run::Comment => c != '\n',
                Run::Text => c != '"',
            };
            if !inside {
                return ;
            }
            self.current += 1;
        }
    }

    /// Scans a string literal whose opening quote lies at the lexeme's
    /// start, just before the cursor.
    fn scan_string_literal(&mut self) -> (r: Result<Option<Token>, ScannerError>)
        requires
            old(self).wf(),
            old(self).current == old(self).start + 1,
            old(self).source@[old(self).start as int] == '"',
        ensures
            final(self).wf(),
            final(self).source == old(self).source,
            final(self).start == old(self).start,
            ({
                let one = scan_one(old(self).source@, old(self).start as int, old(self).line);
                &&& final(self).current == one.end
                &&& final(self).line == one.line
                &&& lexeme_view(r) == one.lexeme
            }),
    {
        let ghost source = self.source@;
        let ghost close = run_end(source, self.start + 1, Run::Text);
        proof {
            lemma_run_end_bounds(source, self.start + 1, Run::Text);
        }
        loop
            invariant
                self.wf(),
                self.source@ == source,
                self.source == old(self).source,
                self.start == old(self).start,
                self.start < self.current <= close <= source.len(),
                close == run_end(source, self.current as int, Run::Text),
                self.line == line_after(
                    source,
                    self.start + 1,
                    self.current as int,
                    old(self).line,
                ),
            ensures
                self.current == close,
            decreases source.len() - self.current,
        {
            if self.is_eof() {
                break ;
            }
            let c = self.source[self.current];
            if c == '"' {
                break ;
            }
            if c == '\n' {
                if self.line < usize::MAX {
                    self.line += 1;
                }
            }
            proof {
                lemma_run_end_bounds(source, self.current + 1, Run::Text);
            }
            self.current += 1;
        }
        if self.is_eof() {
            return Err(
                ScannerError::ScannerError(self.line, String::from_str("Unterminated string")),
            );
        }
        // Once more to cover the closing quote.
        self.current += 1;
        let literal = string_of(&self.source, self.start + 1, self.current - 1);
        Ok(self.build_token_with_literal(TokenType::String, Some(Literal::String(literal))))
    }

    /// Scans a number whose first digit lies at the lexeme's start, just
    /// before the cursor.
    fn scan_numeric_literal(&mut self) -> (r: Result<Option<Token>, ScannerError>)
        requires
            old(self).wf(),
            old(self).current == old(self).start + 1,
            is_digit(old(self).source@[old(self).start as int]),
        ensures
            final(self).wf(),
            final(self).source == old(self).source,
            final(self).start == old(self).start,
            ({
                let one = scan_one(old(self).source@, old(self).start as int, old(self).line);
                &&& final(self).current == one.end
                &&& final(self).line == one.line
                &&& lexeme_view(r) == one.lexeme
            }),
    {
        proof {
            lemma_run_members(self.source@, self.current as int, Run::Digits);
        }
        self.skip_run(Run::Digits);
        let next = self.peek_next();
        if self.peek() == '.' && next >= '0' && next <= '9' {
            // Consume the dot.
            self.current += 1;
            proof {
                lemma_run_end_bounds(self.source@, self.current as int + 1, Run::Digits);
                lemma_run_members(self.source@, self.current as int, Run::Digits);
                assert(run_end(self.source@, self.current as int, Run::Digits) == run_end(
                    self.source@,
                    self.current as int + 1,
                    Run::Digits,
                ));
            }
            self.skip_run(Run::Digits);
        }
        let text = self.current_lexeme();
        proof {
            assert(decimal_text(text@));
        }
        match Number::parse(text.as_str()) {
            Some(number) => Ok(
                self.build_token_with_literal(TokenType::Number, Some(Literal::Number(number))),
            ),
            None => {
                let mut message = String::from_str("Invalid number: ");
                message.append(text.as_str());
                Err(ScannerError::ScannerError(self.line, message))
            },
        }
    }

    /// Scans an identifier or a keyword whose first character lies at the
    /// lexeme's start, just before the cursor.
    fn scan_identifier(&mut self) -> (r: Result<Option<Token>, ScannerError>)
        requires
            old(self).wf(),
            old(self).current == old(self).start + 1,
            is_alpha(old(self).source@[old(self).start as int]),
            !is_digit(old(self).source@[old(self).start as int]),
        ensures
            final(self).wf(),
            final(self).source == old(self).source,
            final(self).start == old(self).start,
            ({
                let one = scan_one(old(self).source@, old(self).start as int, old(self).line);
                &&& final(self).current == one.end
                &&& final(self).line == one.line
                &&& lexeme_view(r) == one.lexeme
            }),
    {
        self.skip_run(Run::Word);
        let text = self.current_lexeme();
        match keyword(text.as_str()) {
            Some(TokenType::True) => Ok(
                self.build_token_with_literal(TokenType::True, Some(Literal::Bool(true))),
            ),
            Some(TokenType::False) => Ok(
                self.build_token_with_literal(TokenType::False, Some(Literal::Bool(false))),
            ),
            Some(TokenType::Nil) => Ok(
                self.build_token_with_literal(TokenType::Nil, Some(Literal::Nil)),
            ),
            Some(token_type) => Ok(self.build_current_token(token_type)),
            None => Ok(self.build_current_token(TokenType::Identifier)),
        }
    }

    /// A one- or two-character operator: the longer one where `=` follows.
    fn scan_operator(&mut self, short: TokenType, long: TokenType) -> (r: Result<
        Option<Token>,
        ScannerError,
    >)
        requires
            old(self).wf(),
            old(self).current == old(self).start + 1,
        ensures
            final(self).wf(),
            final(self).source == old(self).source,
            final(self).start == old(self).start,
            ({
                let one = operator(
                    old(self).source@,
                    old(self).start as int,
                    short,
                    long,
                    old(self).line,
                );
                &&& final(self).current == one.end
                &&& final(self).line == one.line
                &&& lexeme_view(r) == one.lexeme
            }),
    {
        let token_type = if self.is_match('=') {
            long
        } else {
            short
        };
        Ok(self.build_current_token(token_type))
    }

    /// Scans the lexeme whose first character lies at the lexeme's start,
    /// just before the cursor.
    pub fn scan_token(&mut self) -> (r: Result<Option<Token>, ScannerError>)
        requires
            old(self).wf(),
            old(self).current == old(self).start + 1,
        ensures
            final(self).wf(),
            final(self).source == old(self).source,
            final(self).start == old(self).start,
            ({
                let one = scan_one(old(self).source@, old(self).start as int, old(self).line);
                &&& final(self).current == one.end
                &&& final(self).line == one.line
                &&& lexeme_view(r) == one.lexeme
            }),
    {
        let ch = self.source[self.current - 1];
        if ch == '(' {
            Ok(self.build_current_token(TokenType::LeftParen))
        } else if ch == ')' {
            Ok(self.build_current_token(TokenType::RightParen))
        } else if ch == '{' {
            Ok(self.build_current_token(TokenType::LeftBrace))
        } else if ch == '}' {
            Ok(self.build_current_token(TokenType::RightBrace))
        } else if ch == ',' {
            Ok(self.build_current_token(TokenType::Comma))
        } else if ch == '.' {
            Ok(self.build_current_token(TokenType::Dot))
        } else if ch == '-' {
            Ok(self.build_current_token(TokenType::Minus))
        } else if ch == '+' {
            Ok(self.build_current_token(TokenType::Plus))
        } else if ch == ';' {
            Ok(self.build_current_token(TokenType::Semicolon))
        } else if ch == '*' {
            Ok(self.build_current_token(TokenType::Star))
        } else if ch == '!' {
            self.scan_operator(TokenType::Bang, TokenType::BangEqual)
        } else if ch == '=' {
            self.scan_operator(TokenType::Equal, TokenType::EqualEqual)
        } else if ch == '<' {
            self.scan_operator(TokenType::Less, TokenType::LessEqual)
        } else if ch == '>' {
            self.scan_operator(TokenType::Greater, TokenType::GreaterEqual)
        } else if ch == '/' {
            if self.is_match('/') {
                self.skip_run(Run::Comment);
                Ok(None)
            } else {
                Ok(self.build_current_token(TokenType::Slash))
            }
        } else if ch == ' ' || ch == '\r' || ch == '\t' {
            Ok(None)
        } else if ch == '\n' {
            if self.line < usize::MAX {
                self.line += 1;
            }
            Ok(None)
        } else if ch == '"' {
            self.scan_string_literal()
        } else if ch >= '0' && ch <= '9' {
            self.scan_numeric_literal()
        } else if (ch >= 'a' && ch <= 'z') || (ch >= 'A' && ch <= 'Z') || ch == '_' {
            self.scan_identifier()
        } else {
            let mut message = String::from_str("Invalid character: ");
            message.push(ch);
            Err(ScannerError::ScannerError(self.line, message))
        }
    }

    /// Scans from the cursor to the end of the text: the tokens, ended by
    /// the end token, and the lexical errors.
    pub fn scan_tokens(&mut self) -> (r: (Vec<Token>, Vec<ScannerError>))
        requires
            old(self).wf(),
        ensures
            final(self).wf(),
            final(self).source == old(self).source,
            ({
                let scan = scan_from(
                    old(self).source@,
                    old(self).current as int,
                    old(self).line,
                    Seq::empty(),
                    Seq::empty(),
                );
                &&& tokens_view(r.0@) == scan.tokens.push(end_token(scan.line))
                &&& errors_view(r.1@) == scan.errors
            }),
    {
        let mut errors: Vec<ScannerError> = Vec::new();
        let mut tokens: Vec<Token> = Vec::new();
        let ghost goal = scan_from(
            self.source@,
            self.current as int,
            self.line,
            Seq::empty(),
            Seq::empty(),
        );
        proof {
            assert(tokens_view(tokens@) =~= Seq::empty());
            assert(errors_view(errors@) =~= Seq::empty());
        }
        while !self.is_eof()
            invariant
                self.wf(),
                self.source == old(self).source,
                goal == scan_from(
                    self.source@,
                    self.current as int,
                    self.line,
                    tokens_view(tokens@),
                    errors_view(errors@),
                ),
            decreases self.source@.len() - self.current,
        {
            let ghost tokens_before = tokens_view(tokens@);
            let ghost errors_before = errors_view(errors@);
            proof {
                lemma_scan_one_advances(self.source@, self.current as int, self.line);
            }
            self.start = self.current;
            self.advance();
            match self.scan_token() {
                Ok(Some(token)) => {
                    tokens.push(token);
                    proof {
                        assert(tokens_view(tokens@) =~= tokens_before.push(token@));
                    }
                },
                Ok(None) => {},
                Err(error) => {
                    errors.push(error);
                    proof {
                        assert(errors_view(errors@) =~= errors_before.push(error@));
                    }
                },
            }
        }
        let ghost tokens_before = tokens_view(tokens@);
        let last = Token::new(TokenType::Eof, String::new(), None, self.line);
        tokens.push(last);
        proof {
            assert(tokens_view(tokens@) =~= tokens_before.push(last@));
        }
        (tokens, errors)
    }
}

} // verus!
