//! Tokens: what the scanner produces and the parser consumes.

use vstd::prelude::*;
use crate::number::Number;
use crate::number_text::number_text;
use crate::text::same_text;
use vstd::string::StringExecFns;

verus! {

/// The closed set of lexeme categories.
#[derive(Debug, Clone, Copy, PartialEq, Eq, Structural)]
pub enum TokenType {
    // Single-character tokens.
    LeftParen,
    RightParen,
    LeftBrace,
    RightBrace,
    Comma,
    Dot,
    Minus,
    Plus,
    Semicolon,
    Slash,
    Star,
    // One or two character tokens.
    Bang,
    BangEqual,
    Equal,
    EqualEqual,
    Greater,
    GreaterEqual,
    Less,
    LessEqual,
    // Literals.
    Identifier,
    String,
    Number,
    // Keywords.
    And,
    Class,
    Else,
    False,
    Fun,
    For,
    If,
    Nil,
    Or,
    Print,
    Return,
    Super,
    This,
    True,
    Var,
    While,
    Eof,
}

/// The keyword that a piece of text spells, if it spells one.
pub open spec fn keyword_of(text: Seq<char>) -> Option<TokenType> {
    if text == "and"@ {
        Some(TokenType::And)
    } else if text == "class"@ {
        Some(TokenType::Class)
    } else if text == "else"@ {
        Some(TokenType::Else)
    } else if text == "false"@ {
        Some(TokenType::False)
    } else if text == "for"@ {
        Some(TokenType::For)
    } else if text == "fun"@ {
        Some(TokenType::Fun)
    } else if text == "if"@ {
        Some(TokenType::If)
    } else if text == "nil"@ {
        Some(TokenType::Nil)
    } else if text == "or"@ {
        Some(TokenType::Or)
    } else if text == "print"@ {
        Some(TokenType::Print)
    } else if text == "return"@ {
        Some(TokenType::Return)
    } else if text == "super"@ {
        Some(TokenType::Super)
    } else if text == "this"@ {
        Some(TokenType::This)
    } else if text == "true"@ {
        Some(TokenType::True)
    } else if text == "var"@ {
        Some(TokenType::Var)
    } else if text == "while"@ {
        Some(TokenType::While)
    } else {
        None
    }
}

/// Looks a word up in the fixed keyword table.
pub fn keyword(text: &str) -> (r: Option<TokenType>)
    ensures
        r == keyword_of(text@),
{
    if same_text(text, "and") {
        Some(TokenType::And)
    } else if same_text(text, "class") {
        Some(TokenType::Class)
    } else if same_text(text, "else") {
        Some(TokenType::Else)
    } else if same_text(text, "false") {
        Some(TokenType::False)
    } else if same_text(text, "for") {
        Some(TokenType::For)
    } else if same_text(text, "fun") {
        Some(TokenType::Fun)
    } else if same_text(text, "if") {
        Some(TokenType::If)
    } else if same_text(text, "nil") {
        Some(TokenType::Nil)
    } else if same_text(text, "or") {
        Some(TokenType::Or)
    } else if same_text(text, "print") {
        Some(TokenType::Print)
    } else if same_text(text, "return") {
        Some(TokenType::Return)
    } else if same_text(text, "super") {
        Some(TokenType::Super)
    } else if same_text(text, "this") {
        Some(TokenType::This)
    } else if same_text(text, "true") {
        Some(TokenType::True)
    } else if same_text(text, "var") {
        Some(TokenType::Var)
    } else if same_text(text, "while") {
        Some(TokenType::While)
    } else {
        None
    }
}

/// The value that a literal token carries.
#[derive(Debug, PartialEq)]
pub enum Literal {
    Number(Number),
    String(String),
    Bool(bool),
    Nil,
}

/// A literal as a mathematical value.
pub enum LiteralView {
    Number(u64),
    String(Seq<char>),
    Bool(bool),
    Nil,
}

impl View for Literal {
    type V = LiteralView;

    open spec fn view(&self) -> LiteralView {
        match *self {
            Literal::Number(number) => LiteralView::Number(number.bits),
            Literal::String(text) => LiteralView::String(text@),
            Literal::Bool(b) => LiteralView::Bool(b),
            Literal::Nil => LiteralView::Nil,
        }
    }
}

impl Literal {
    /// The text of the literal as a program would print its value.
    pub open spec fn text(self) -> Seq<char> {
        match self {
            Literal::Number(number) => number_text(number.bits),
            Literal::String(text) => text@,
            Literal::Bool(b) => if b {
                "true"@
            } else {
                "false"@
            },
            Literal::Nil => "nil"@,
        }
    }

    /// The text of the literal as a program would print its value.
    pub fn to_string(&self) -> (r: String)
        ensures
            r@ == self.text(),
    {
        match self {
            Literal::Number(number) => number.to_text(),
            Literal::String(text) => text.clone(),
            Literal::Bool(b) => {
                if *b {
                    String::from_str("true")
                } else {
                    String::from_str("false")
                }
            },
            Literal::Nil => String::from_str("nil"),
        }
    }
}

impl Clone for Literal {
    fn clone(&self) -> (r: Literal)
        ensures
            r == *self,
    {
        match self {
            Literal::Number(number) => Literal::Number(*number),
            Literal::String(text) => Literal::String(text.clone()),
            Literal::Bool(b) => Literal::Bool(*b),
            Literal::Nil => Literal::Nil,
        }
    }
}

/// One lexeme of the source, with its category, its text, the value it
/// denotes where it is a literal, and the line it ends on.
#[derive(Debug)]
pub struct Token {
    pub token_type: TokenType,
    pub literal: Option<Literal>,
    pub lexeme: String,
    pub line: usize,
}

/// A token as a mathematical value.
pub struct TokenView {
    pub token_type: TokenType,
    pub literal: Option<LiteralView>,
    pub lexeme: Seq<char>,
    pub line: usize,
}

impl View for Token {
    type V = TokenView;

    open spec fn view(&self) -> TokenView {
        TokenView {
            token_type: self.token_type,
            literal: match self.literal {
                Some(literal) => Some(literal@),
                None => None,
            },
            lexeme: self.lexeme@,
            line: self.line,
        }
    }
}

impl Clone for Token {
    fn clone(&self) -> (r: Token)
        ensures
            r == *self,
    {
        Token {
            token_type: self.token_type,
            literal: match &self.literal {
                Some(literal) => Some(literal.clone()),
                None => None,
            },
            lexeme: self.lexeme.clone(),
            line: self.line,
        }
    }
}

impl Token {
    /// A token made of the four parts given.
    pub fn new(token_type: TokenType, lexeme: String, literal: Option<Literal>, line: usize) -> (r:
        Token)
        ensures
            r.token_type == token_type,
            r.lexeme == lexeme,
            r.literal == literal,
            r.line == line,
    {
        Token { token_type, lexeme, literal, line }
    }
}

} // verus!
