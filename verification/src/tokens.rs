//! Tokens: the smallest lexical units of a program.

use vstd::prelude::*;

verus! {

/// The kind of a token.
#[allow(non_camel_case_types)]
#[derive(Debug, Clone, Copy, PartialEq, Eq, Structural)]
pub enum TokenType {
    // Single-character tokens.
    LEFT_PAREN,
    RIGHT_PAREN,
    LEFT_BRACE,
    RIGHT_BRACE,
    COMMA,
    DOT,
    MINUS,
    PLUS,
    SEMICOLON,
    SLASH,
    STAR,
    // One or two character tokens.
    BANG,
    BANG_EQUAL,
    EQUAL,
    EQUAL_EQUAL,
    GREATER,
    GREATER_EQUAL,
    LESS,
    LESS_EQUAL,
    // Literals.
    IDENTIFIER,
    STRING,
    NUMBER,
    // Keywords.
    AND,
    CLASS,
    ELSE,
    FALSE,
    FUN,
    FOR,
    IF,
    NIL,
    OR,
    PRINT,
    RETURN,
    SUPER,
    THIS,
    TRUE,
    VAR,
    WHILE,
    EOF,
}

/// The value that a literal token stands for.
///
/// A number is kept as its numeral, a string of the shape `digits` or
/// `digits.digits`; the double it denotes is computed when the literal is
/// evaluated.
#[derive(Debug)]
pub enum Literal {
    String(String),
    Number(String),
    Boolean(bool),
    Nil,
}

/// The mathematical model of a [`Literal`].
pub enum LiteralView {
    String(Seq<char>),
    Number(Seq<char>),
    Boolean(bool),
    Nil,
}

impl View for Literal {
    type V = LiteralView;

    open spec fn view(&self) -> LiteralView {
        match self {
            Literal::String(text) => LiteralView::String(text@),
            Literal::Number(numeral) => LiteralView::Number(numeral@),
            Literal::Boolean(value) => LiteralView::Boolean(*value),
            Literal::Nil => LiteralView::Nil,
        }
    }
}

impl Clone for Literal {
    fn clone(&self) -> (copy: Self)
        ensures
            copy == *self,
    {
        match self {
            Literal::String(text) => Literal::String(text.clone()),
            Literal::Number(numeral) => Literal::Number(numeral.clone()),
            Literal::Boolean(value) => Literal::Boolean(*value),
            Literal::Nil => Literal::Nil,
        }
    }
}

/// A token: its kind, the exact slice of the source it was read from, the
/// value it stands for, the line it is on, and the offset of its first
/// character, which tells two occurrences of one name apart.
#[derive(Debug)]
pub struct Token {
    pub token_type: TokenType,
    pub lexeme: String,
    pub literal: Literal,
    pub line: usize,
    pub offset: usize,
}

/// The mathematical model of a [`Token`].
pub struct TokenView {
    pub token_type: TokenType,
    pub lexeme: Seq<char>,
    pub literal: LiteralView,
    pub line: usize,
    pub offset: usize,
}

impl View for Token {
    type V = TokenView;

    open spec fn view(&self) -> TokenView {
        TokenView {
            token_type: self.token_type,
            lexeme: self.lexeme@,
            literal: self.literal@,
            line: self.line,
            offset: self.offset,
        }
    }
}

impl Clone for Token {
    fn clone(&self) -> (copy: Self)
        ensures
            copy == *self,
    {
        Token {
            token_type: self.token_type,
            lexeme: self.lexeme.clone(),
            literal: self.literal.clone(),
            line: self.line,
            offset: self.offset,
        }
    }
}

/// The models of a sequence of tokens, one for one.
pub open spec fn tokens_view(tokens: Seq<Token>) -> Seq<TokenView> {
    tokens.map_values(|token: Token| token@)
}

impl Token {
    /// A token at offset 0.
    pub fn new(token_type: TokenType, lexeme: String, literal: Literal, line: usize) -> (token:
        Self)
        ensures
            token == (Token { token_type, lexeme, literal, line, offset: 0 }),
    {
        Token { token_type, lexeme, literal, line, offset: 0 }
    }

    /// The same token at another offset.
    pub fn with_offset(self, offset: usize) -> (token: Self)
        ensures
            token == (Token { offset, ..self }),
    {
        Token { offset, ..self }
    }
}

} // verus!
