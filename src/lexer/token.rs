use vstd::prelude::*;

use crate::common::span::Span;
use crate::lexer::cursor::Chunk;

verus! {

/// The class of a lexeme.
#[derive(Clone, Copy, Debug, PartialEq, Eq, Structural)]
pub enum TokenKind {
    Identifier,
    Integer,
    Float,
    Plus,
    Minus,
    Multiply,
    Divide,
    Assignment,
    Equal,
    LessThen,
    GreaterThen,
    LessThenEqual,
    GreaterThenEqual,
    LeftParenthesis,
    RightParenthesis,
    LeftCurlyBrace,
    RightCurlyBrace,
    Colon,
    Semicolon,
    Arrow,
    Comma,
    If,
    Else,
    While,
    Let,
    Mut,
    Function,
    Return,
}

/// A lexeme as the parser sees it: its class and where it stands.
pub struct Lexeme {
    pub kind: TokenKind,
    pub span: Span,
}

/// A classified piece of source text.
#[derive(Debug)]
pub struct Token {
    pub chunk: Chunk,
    pub kind: TokenKind,
}

impl View for Token {
    type V = Lexeme;

    open spec fn view(&self) -> Lexeme {
        Lexeme { kind: self.kind, span: self.chunk.span }
    }
}

impl Clone for Token {
    fn clone(&self) -> (r: Self)
        ensures
            r == *self,
    {
        Token { chunk: self.chunk.clone(), kind: self.kind }
    }
}

impl Token {
    pub fn new(chunk: Chunk, kind: TokenKind) -> (r: Token)
        ensures
            r.chunk == chunk,
            r.kind == kind,
    {
        Token { chunk, kind }
    }

    /// The token's text is the part of `code` its span covers.
    pub open spec fn lies_in(&self, code: Seq<char>) -> bool {
        &&& self.chunk.span.start <= self.chunk.span.end <= code.len()
        &&& self.chunk.data@ == code.subrange(
            self.chunk.span.start as int,
            self.chunk.span.end as int,
        )
    }
}

} // verus!
