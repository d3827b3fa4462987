use vstd::prelude::*;

verus! {

/// Source coordinates of a token together with the exact text it covers.
#[derive(Debug, Clone, PartialEq, Eq)]
pub struct TextSpan {
    pub from_line: usize,
    pub from_col: usize,
    pub to_line: usize,
    pub to_col: usize,
    pub lexeme: String,
}

impl TextSpan {
    pub fn new(from_line: usize, from_col: usize, to_line: usize, to_col: usize, lexeme: &str) -> (r:
        TextSpan)
        ensures
            r.from_line == from_line,
            r.from_col == from_col,
            r.to_line == to_line,
            r.to_col == to_col,
            r.lexeme@ == lexeme@,
    {
        TextSpan { from_line, from_col, to_line, to_col, lexeme: lexeme.to_owned() }
    }

    /// A copy of the span, field for field.
    pub fn duplicate(&self) -> (r: TextSpan)
        ensures
            r == *self,
    {
        TextSpan {
            from_line: self.from_line,
            from_col: self.from_col,
            to_line: self.to_line,
            to_col: self.to_col,
            lexeme: self.lexeme.clone(),
        }
    }
}

/// The closed set of token kinds of PArL.
#[derive(Debug, Clone, Copy, PartialEq, Eq, Structural)]
pub enum TokenKind {
    LParen,
    RParen,
    LBrace,
    RBrace,
    Comma,
    Semicolon,
    Colon,
    Arrow,
    Plus,
    Minus,
    Multiply,
    Divide,
    EqEq,
    NotEqual,
    LessThan,
    LessThanEqual,
    GreaterThan,
    GreaterThanEqual,
    And,
    Or,
    Not,
    Equals,
    Let,
    Fun,
    If,
    Else,
    For,
    While,
    Return,
    As,
    PadPrint,
    PadDelay,
    PadWidth,
    PadHeight,
    PadRead,
    PadRandI,
    PadWrite,
    PadWriteBox,
    PadClear,
    Type,
    Identifier,
    IntLiteral,
    FloatLiteral,
    BoolLiteral,
    ColourLiteral,
    EndOfFile,
}

/// A token: its kind and the span it was read from.
#[derive(Debug, Clone, PartialEq, Eq)]
pub struct Token {
    pub kind: TokenKind,
    pub span: TextSpan,
}

impl Token {
    pub fn new(kind: TokenKind, span: TextSpan) -> (r: Token)
        ensures
            r.kind == kind,
            r.span == span,
    {
        Token { kind, span }
    }

    /// A copy of the token, field for field.
    pub fn duplicate(&self) -> (r: Token)
        ensures
            r == *self,
    {
        Token { kind: self.kind, span: self.span.duplicate() }
    }
}

} // verus!
