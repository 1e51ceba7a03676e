pub mod ast;
pub mod cursor;
pub mod expression;
pub mod grammar;
pub mod shapes;
pub mod spans;
pub mod statement;

use vstd::prelude::*;

use crate::common::error::{Error, ErrorKind};
use crate::common::source::Source;
use crate::lexer::lexemes;
use crate::lexer::token::TokenKind;
use crate::lexer::Lexer;
use crate::parser::ast::{Argument, Function, FunctionTree, Program};
use crate::parser::cursor::{agrees, Cursor};
use crate::parser::expression::single;
use crate::parser::grammar::{
    function_declaration, function_list, lookahead, moved, parameter_followers, parameter_list, parameters, At,
    Stream,
};

verus! {

/// What the parser reads from a source text: its lexemes from the start.
pub open spec fn stream_of(code: Seq<char>) -> Stream {
    Stream { text: code, lexemes: lexemes(code, 0).0, failure: lexemes(code, 0).1 }
}

/// Parses a whole source: its functions in order, or the first error.
pub fn parse(source: Source) -> (r: Result<Program, Box<Error>>)
    ensures
        agrees(
            r,
            function_list(stream_of(source.code@), At { index: 0, span: None }, seq![]),
            |p: Program| function_trees(p.functions@),
            match function_list(stream_of(source.code@), At { index: 0, span: None }, seq![]) {
                Ok((_, a)) => a,
                Err(_) => At { index: 0, span: None },
            },
        ),
        r matches Ok(p) ==> p.path == source.path,
        r matches Err(e) ==> e.source == source,
{
    let lexer = Lexer::new(source.clone());
    let cursor = Cursor::new(lexer, source.clone());
    let mut parser = Parser::new(source, cursor);
    parser.parse_program()
}

pub open spec fn argument_pairs(v: Seq<Argument>) -> Seq<(Seq<char>, Seq<char>)> {
    v.map_values(|a: Argument| (a.name@, a.argument_type@))
}

pub open spec fn function_trees(v: Seq<Function>) -> Seq<FunctionTree> {
    v.map_values(|f: Function| f@)
}

/// A recursive-descent parser over the tokens of one source.
#[derive(Debug)]
pub struct Parser {
    pub source: Source,
    pub cursor: Cursor,
}

impl Parser {
    pub open spec fn wf(&self) -> bool {
        &&& self.cursor.wf()
        &&& self.cursor.source == self.source
    }

    pub open spec fn stream(&self) -> Stream {
        self.cursor.stream()
    }

    pub open spec fn at(&self) -> At {
        self.cursor.at()
    }

    /// `next` reads the same tokens of the same source as `self`.
    pub open spec fn same_input(&self, next: &Parser) -> bool {
        &&& next.wf()
        &&& next.stream() == self.stream()
        &&& next.source == self.source
        &&& next.cursor.tokens.len() == self.cursor.tokens.len()
    }

    /// How many tokens are left to read.
    pub open spec fn remaining(&self) -> int {
        self.cursor.tokens.len() - self.cursor.position
    }

    pub open spec fn blames<T>(&self, r: Result<T, Box<Error>>) -> bool {
        r matches Err(e) ==> e.source == self.source
    }

    pub fn new(source: Source, cursor: Cursor) -> (r: Parser)
        requires
            cursor.wf(),
            cursor.source == source,
        ensures
            r.wf(),
            r.source == source,
            r.cursor == cursor,
    {
        Parser { source, cursor }
    }

    /// The parameters of a function, after its `(`: none if `)` follows at
    /// once, else `name : type` pairs separated by commas.
    pub fn parameters(&mut self) -> (r: Result<Vec<Argument>, Box<Error>>)
        requires
            old(self).wf(),
        ensures
            old(self).same_input(final(self)),
            old(self).blames(r),
            agrees(
                r,
                parameters(old(self).stream(), old(self).at()),
                |v: Vec<Argument>| argument_pairs(v@),
                final(self).at(),
            ),
            r is Ok ==> old(self).at().index <= final(self).at().index,
    {
        let mut args: Vec<Argument> = Vec::new();
        if self.cursor.test(TokenKind::RightParenthesis) {
            assert(argument_pairs(args@) =~= seq![]);
            return Ok(args);
        }
        let ghost st = self.stream();
        let ghost at0 = self.at();
        assert(argument_pairs(args@) =~= seq![]);
        loop
            invariant
                old(self).same_input(self),
                st == old(self).stream(),
                at0 == old(self).at(),
                at0.index <= self.at().index,
                parameter_list(st, self.at(), argument_pairs(args@)) == parameters(st, at0),
            decreases self.remaining(),
        {
            let ghost before = self.at();
            let argument_name = self.cursor.consume(TokenKind::Identifier)?;
            self.cursor.consume(TokenKind::Colon)?;
            let argument_type = self.cursor.consume(TokenKind::Identifier)?;
            let ghost old_args = args@;
            args.push(
                Argument { name: argument_name.chunk.data, argument_type: argument_type.chunk.data },
            );
            assert(argument_pairs(args@) =~= argument_pairs(old_args).push(
                (argument_name.chunk.data@, argument_type.chunk.data@),
            ));
            if !self.cursor.optional(TokenKind::Comma)? {
                let token = self.cursor.peek()?;
                if token.kind == TokenKind::Identifier {
                    assert(parameter_followers()[0] == token.kind);
                    return Err(
                        Box::new(
                            Error::new(
                                ErrorKind::UnexpectedToken {
                                    expected: single(TokenKind::Comma),
                                    received: token.kind,
                                },
                                token.chunk.span,
                                self.source.clone(),
                            ),
                        ),
                    );
                }
                return Ok(args);
            }
        }
    }

    /// A function declaration after its `function` keyword: a name, its
    /// parameters in parentheses, an optional `-> type`, and a block.
    pub fn parse_function(&mut self) -> (r: Result<Function, Box<Error>>)
        requires
            old(self).wf(),
        ensures
            old(self).same_input(final(self)),
            old(self).blames(r),
            agrees(r, function_declaration(old(self).stream(), old(self).at()), |f: Function| f@, final(self).at()),
            r is Ok ==> moved(old(self).stream(), old(self).at(), final(self).at()),
    {
        let name = self.cursor.consume(TokenKind::Identifier)?.chunk.data;
        self.cursor.consume(TokenKind::LeftParenthesis)?;
        let arguments = self.parameters()?;
        self.cursor.consume(TokenKind::RightParenthesis)?;
        let return_type = if self.cursor.optional(TokenKind::Arrow)? {
            Some(self.cursor.consume(TokenKind::Identifier)?.chunk.data)
        } else {
            None
        };
        let body = self.parse_block()?;
        Ok(Function { name, arguments, body, return_type })
    }

    /// A program: function declarations up to the end of the input. Any other
    /// token at the top level, and any failure to read the input, is an error.
    pub fn parse_program(&mut self) -> (r: Result<Program, Box<Error>>)
        requires
            old(self).wf(),
        ensures
            old(self).same_input(final(self)),
            old(self).blames(r),
            agrees(
                r,
                function_list(old(self).stream(), old(self).at(), seq![]),
                |p: Program| function_trees(p.functions@),
                final(self).at(),
            ),
            r matches Ok(p) ==> p.path == old(self).source.path,
    {
        let ghost st = self.stream();
        let ghost at0 = self.at();
        let mut functions: Vec<Function> = Vec::new();
        assert(function_trees(functions@) =~= seq![]);
        loop
            invariant
                old(self).same_input(self),
                st == old(self).stream(),
                at0 == old(self).at(),
                function_list(st, self.at(), function_trees(functions@)) == function_list(st, at0, seq![]),
            ensures
                function_list(st, at0, seq![]) == Ok::<(Seq<FunctionTree>, At), crate::common::error::Diagnostic>(
                    (function_trees(functions@), self.at()),
                ),
            decreases self.remaining(),
        {
            let (kind, span) = match self.cursor.peek() {
                Ok(token) => (token.kind, token.chunk.span),
                Err(e) => {
                    if self.cursor.lookup(0).is_none() {
                        break ;
                    }
                    return Err(e);
                },
            };
            if kind == TokenKind::Function {
                self.cursor.next_token()?;
                let function = self.parse_function()?;
                let ghost old_functions = functions@;
                functions.push(function);
                assert(function_trees(functions@) =~= function_trees(old_functions).push(function@));
            } else {
                return Err(
                    Box::new(
                        Error::new(
                            ErrorKind::UnexpectedToken {
                                expected: single(TokenKind::Function),
                                received: kind,
                            },
                            span,
                            self.source.clone(),
                        ),
                    ),
                );
            }
        }
        Ok(Program { path: self.source.path.clone(), functions })
    }
}

} // verus!
