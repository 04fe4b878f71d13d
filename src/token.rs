use vstd::prelude::*;

verus! {

/// Token kinds produced by the scanner; `V` is the scalar type of numbers.
#[derive(Debug, Clone, PartialEq)]
pub enum TokenType<V> {
    Fn,
    Struct,
    Learn,
    Let,
    Minimize,
    Return,
    Identifier(String),
    Number(V),
    LParen,
    RParen,
    LBrace,
    RBrace,
    Comma,
    Colon,
    Semicolon,
    Assign,
    Plus,
    Minus,
    Star,
    Slash,
    Percent,
    Caret,
    Equal,
    NotEq,
    Lt,
    Gt,
    LtEq,
    GtEq,
    Eof,
}

/// A token with its source position.
#[derive(Debug, Clone, PartialEq)]
pub struct Token<V> {
    pub token_type: TokenType<V>,
    pub line: usize,
    pub column: usize,
}

impl<V> Token<V> {
    pub fn new(token_type: TokenType<V>, line: usize, column: usize) -> (r: Self)
        ensures
            r.token_type == token_type,
            r.line == line,
            r.column == column,
    {
        Token { token_type, line, column }
    }
}

/// The variant of a token kind, payload aside.
pub open spec fn kind_tag<V>(t: TokenType<V>) -> u8 {
    match t {
        TokenType::Fn => 0,
        TokenType::Struct => 1,
        TokenType::Learn => 2,
        TokenType::Let => 3,
        TokenType::Minimize => 4,
        TokenType::Return => 5,
        TokenType::Identifier(_) => 6,
        TokenType::Number(_) => 7,
        TokenType::LParen => 8,
        TokenType::RParen => 9,
        TokenType::LBrace => 10,
        TokenType::RBrace => 11,
        TokenType::Comma => 12,
        TokenType::Colon => 13,
        TokenType::Semicolon => 14,
        TokenType::Assign => 15,
        TokenType::Plus => 16,
        TokenType::Minus => 17,
        TokenType::Star => 18,
        TokenType::Slash => 19,
        TokenType::Percent => 20,
        TokenType::Caret => 21,
        TokenType::Equal => 22,
        TokenType::NotEq => 23,
        TokenType::Lt => 24,
        TokenType::Gt => 25,
        TokenType::LtEq => 26,
        TokenType::GtEq => 27,
        TokenType::Eof => 28,
    }
}

impl<V: Copy> TokenType<V> {
    /// The variant of this kind, payload aside.
    pub fn tag(&self) -> (r: u8)
        ensures
            r == kind_tag(*self),
    {
        match self {
            TokenType::Fn => 0,
            TokenType::Struct => 1,
            TokenType::Learn => 2,
            TokenType::Let => 3,
            TokenType::Minimize => 4,
            TokenType::Return => 5,
            TokenType::Identifier(_) => 6,
            TokenType::Number(_) => 7,
            TokenType::LParen => 8,
            TokenType::RParen => 9,
            TokenType::LBrace => 10,
            TokenType::RBrace => 11,
            TokenType::Comma => 12,
            TokenType::Colon => 13,
            TokenType::Semicolon => 14,
            TokenType::Assign => 15,
            TokenType::Plus => 16,
            TokenType::Minus => 17,
            TokenType::Star => 18,
            TokenType::Slash => 19,
            TokenType::Percent => 20,
            TokenType::Caret => 21,
            TokenType::Equal => 22,
            TokenType::NotEq => 23,
            TokenType::Lt => 24,
            TokenType::Gt => 25,
            TokenType::LtEq => 26,
            TokenType::GtEq => 27,
            TokenType::Eof => 28,
        }
    }

    /// An equal copy of this kind.
    pub fn duplicate(&self) -> (r: Self)
        ensures
            r == *self,
    {
        match self {
            TokenType::Fn => TokenType::Fn,
            TokenType::Struct => TokenType::Struct,
            TokenType::Learn => TokenType::Learn,
            TokenType::Let => TokenType::Let,
            TokenType::Minimize => TokenType::Minimize,
            TokenType::Return => TokenType::Return,
            TokenType::Identifier(s) => TokenType::Identifier(s.clone()),
            TokenType::Number(n) => TokenType::Number(*n),
            TokenType::LParen => TokenType::LParen,
            TokenType::RParen => TokenType::RParen,
            TokenType::LBrace => TokenType::LBrace,
            TokenType::RBrace => TokenType::RBrace,
            TokenType::Comma => TokenType::Comma,
            TokenType::Colon => TokenType::Colon,
            TokenType::Semicolon => TokenType::Semicolon,
            TokenType::Assign => TokenType::Assign,
            TokenType::Plus => TokenType::Plus,
            TokenType::Minus => TokenType::Minus,
            TokenType::Star => TokenType::Star,
            TokenType::Slash => TokenType::Slash,
            TokenType::Percent => TokenType::Percent,
            TokenType::Caret => TokenType::Caret,
            TokenType::Equal => TokenType::Equal,
            TokenType::NotEq => TokenType::NotEq,
            TokenType::Lt => TokenType::Lt,
            TokenType::Gt => TokenType::Gt,
            TokenType::LtEq => TokenType::LtEq,
            TokenType::GtEq => TokenType::GtEq,
            TokenType::Eof => TokenType::Eof,
        }
    }
}

} // verus!
