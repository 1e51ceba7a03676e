use vstd::prelude::*;

use crate::common::source::Source;
use crate::common::span::Span;
use crate::lexer::token::TokenKind;

verus! {

/// What went wrong, without where.
#[derive(Debug)]
pub enum ErrorKind {
    UnexpectedCharacter,
    UnexpectedToken { expected: Vec<TokenKind>, received: TokenKind },
    UnexpectedEndOfInput,
}

/// The mathematical form of an [`ErrorKind`].
pub enum Fault {
    UnexpectedCharacter,
    UnexpectedToken { expected: Seq<TokenKind>, received: TokenKind },
    UnexpectedEndOfInput,
}

/// The mathematical form of an [`Error`]: what went wrong and where.
pub struct Diagnostic {
    pub fault: Fault,
    pub span: Span,
}

impl View for ErrorKind {
    type V = Fault;

    open spec fn view(&self) -> Fault {
        match self {
            ErrorKind::UnexpectedCharacter => Fault::UnexpectedCharacter,
            ErrorKind::UnexpectedToken { expected, received } => Fault::UnexpectedToken {
                expected: expected@,
                received: *received,
            },
            ErrorKind::UnexpectedEndOfInput => Fault::UnexpectedEndOfInput,
        }
    }
}

impl Clone for ErrorKind {
    fn clone(&self) -> (r: Self)
        ensures
            r@ == self@,
    {
        match self {
            ErrorKind::UnexpectedCharacter => ErrorKind::UnexpectedCharacter,
            ErrorKind::UnexpectedToken { expected, received } => {
                let mut copy: Vec<TokenKind> = Vec::new();
                let mut i: usize = 0;
                while i < expected.len()
                    invariant
                        i <= expected@.len(),
                        copy@ == expected@.subrange(0, i as int),
                    decreases expected@.len() - i,
                {
                    copy.push(expected[i]);
                    i = i + 1;
                }
                assert(copy@ =~= expected@);
                ErrorKind::UnexpectedToken { expected: copy, received: *received }
            },
            ErrorKind::UnexpectedEndOfInput => ErrorKind::UnexpectedEndOfInput,
        }
    }
}

/// A diagnostic: its kind, the span it points at, and the source it belongs to.
#[derive(Debug)]
pub struct Error {
    pub kind: ErrorKind,
    pub span: Span,
    pub source: Source,
}

impl View for Error {
    type V = Diagnostic;

    open spec fn view(&self) -> Diagnostic {
        Diagnostic { fault: self.kind@, span: self.span }
    }
}

impl Clone for Error {
    fn clone(&self) -> (r: Self)
        ensures
            r@ == self@,
            r.source == self.source,
    {
        Error { kind: self.kind.clone(), span: self.span, source: self.source.clone() }
    }
}

impl Error {
    pub fn new(kind: ErrorKind, span: Span, source: Source) -> (r: Error)
        ensures
            r.kind == kind,
            r.span == span,
            r.source == source,
    {
        Error { kind, span, source }
    }
}

} // verus!
