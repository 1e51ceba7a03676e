use vstd::prelude::*;

use crate::common::error::{Diagnostic, Error};
use crate::common::span::Span;
use crate::lexer::token::TokenKind;
use crate::parser::ast::{
    lemma_node_trees_push, node_trees, IfStatement, LetStatement, Node,
    ReturnStatement, Spanned, Statement, Tree, WhileStatement,
};
use crate::parser::cursor::agrees;
use crate::parser::grammar::{
    block, block_items, if_rest, let_rest, lookahead, moved, return_rest, statement, while_rest,
    At,
};
use crate::parser::Parser;

verus! {

impl Parser {
    /// A statement: `while`, `if`, `return`, `let`, a block, or an expression
    /// followed by `;`.
    pub fn parse_statement(&mut self) -> (r: Result<Node, Box<Error>>)
        requires
            old(self).wf(),
        ensures
            old(self).same_input(final(self)),
            old(self).blames(r),
            agrees(r, statement(old(self).stream(), old(self).at()), |n: Node| n@, final(self).at()),
            r is Ok ==> moved(old(self).stream(), old(self).at(), final(self).at()),
        decreases old(self).remaining(), 5int,
    {
        let kind = match self.cursor.peek() {
            Ok(token) => token.kind,
            Err(e) => return Err(e),
        };
        match kind {
            TokenKind::While => {
                let token = self.cursor.next_token()?;
                self.parse_while(token.chunk.span)
            },
            TokenKind::LeftCurlyBrace => self.parse_block(),
            TokenKind::If => {
                let token = self.cursor.next_token()?;
                self.parse_if(token.chunk.span)
            },
            TokenKind::Return => {
                let token = self.cursor.next_token()?;
                self.parse_return(token.chunk.span)
            },
            TokenKind::Let => {
                let token = self.cursor.next_token()?;
                self.parse_let(token.chunk.span)
            },
            _ => {
                let expression = self.parse_expression(0)?;
                self.cursor.consume(TokenKind::Semicolon)?;
                Ok(expression)
            },
        }
    }

    /// The rest of a `let` statement whose keyword spans `let_kw_span`:
    /// optional `mut`, a name, optional `: type`, optional `= value`, and `;`.
    pub fn parse_let(&mut self, let_kw_span: Span) -> (r: Result<Node, Box<Error>>)
        requires
            old(self).wf(),
        ensures
            old(self).same_input(final(self)),
            old(self).blames(r),
            agrees(
                r,
                let_rest(old(self).stream(), old(self).at(), let_kw_span),
                |n: Node| n@,
                final(self).at(),
            ),
            r is Ok ==> moved(old(self).stream(), old(self).at(), final(self).at()),
        decreases old(self).remaining(), 7int,
    {
        let mutable = self.cursor.optional(TokenKind::Mut)?;
        let name = self.cursor.consume(TokenKind::Identifier)?.chunk.data;
        let value_type = if self.cursor.optional(TokenKind::Colon)? {
            Some(self.cursor.consume(TokenKind::Identifier)?.chunk.data)
        } else {
            None
        };
        let init = if self.cursor.optional(TokenKind::Assignment)? {
            let expression = self.parse_expression(0)?;
            Some(Box::new(expression))
        } else {
            None
        };
        let semicolon_token = self.cursor.consume(TokenKind::Semicolon)?;
        Ok(
            Node::Statement(
                Statement::Let(
                    Spanned::new(
                        LetStatement { mutable, name, value_type, init },
                        Span::new(let_kw_span.start, semicolon_token.chunk.span.end),
                    ),
                ),
            ),
        )
    }

    /// The rest of a `while` statement whose keyword spans `while_kw_span`:
    /// a parenthesized test and the statement it repeats.
    pub fn parse_while(&mut self, while_kw_span: Span) -> (r: Result<Node, Box<Error>>)
        requires
            old(self).wf(),
        ensures
            old(self).same_input(final(self)),
            old(self).blames(r),
            agrees(
                r,
                while_rest(old(self).stream(), old(self).at(), while_kw_span),
                |n: Node| n@,
                final(self).at(),
            ),
            r is Ok ==> moved(old(self).stream(), old(self).at(), final(self).at()),
        decreases old(self).remaining(), 7int,
    {
        self.cursor.consume(TokenKind::LeftParenthesis)?;
        let test = self.parse_expression(0)?;
        self.cursor.consume(TokenKind::RightParenthesis)?;
        let block = self.parse_statement()?;
        let end = self.cursor.last_end();
        Ok(
            Node::Statement(
                Statement::While(
                    Spanned::new(
                        WhileStatement { test: Box::new(test), body: Box::new(block) },
                        Span::new(while_kw_span.start, end),
                    ),
                ),
            ),
        )
    }

    /// The rest of a `return` statement whose keyword spans `return_kw_span`:
    /// `;`, or a value and `;`.
    pub fn parse_return(&mut self, return_kw_span: Span) -> (r: Result<Node, Box<Error>>)
        requires
            old(self).wf(),
        ensures
            old(self).same_input(final(self)),
            old(self).blames(r),
            agrees(
                r,
                return_rest(old(self).stream(), old(self).at(), return_kw_span),
                |n: Node| n@,
                final(self).at(),
            ),
            r is Ok ==> moved(old(self).stream(), old(self).at(), final(self).at()),
        decreases old(self).remaining(), 7int,
    {
        if self.cursor.test(TokenKind::Semicolon) {
            let semicolon_token = self.cursor.next_token()?;
            Ok(
                Node::Statement(
                    Statement::Return(
                        Spanned::new(
                            ReturnStatement { value: None },
                            Span::new(return_kw_span.start, semicolon_token.chunk.span.end),
                        ),
                    ),
                ),
            )
        } else {
            let expression = self.parse_expression(0)?;
            let semicolon_token = self.cursor.consume(TokenKind::Semicolon)?;
            Ok(
                Node::Statement(
                    Statement::Return(
                        Spanned::new(
                            ReturnStatement { value: Some(Box::new(expression)) },
                            Span::new(return_kw_span.start, semicolon_token.chunk.span.end),
                        ),
                    ),
                ),
            )
        }
    }

    /// The rest of an `if` statement whose keyword spans `if_kw_span`: a
    /// parenthesized test, a statement, and optionally `else` and another.
    pub fn parse_if(&mut self, if_kw_span: Span) -> (r: Result<Node, Box<Error>>)
        requires
            old(self).wf(),
        ensures
            old(self).same_input(final(self)),
            old(self).blames(r),
            agrees(
                r,
                if_rest(old(self).stream(), old(self).at(), if_kw_span),
                |n: Node| n@,
                final(self).at(),
            ),
            r is Ok ==> moved(old(self).stream(), old(self).at(), final(self).at()),
        decreases old(self).remaining(), 7int,
    {
        self.cursor.consume(TokenKind::LeftParenthesis)?;
        let test = self.parse_expression(0)?;
        self.cursor.consume(TokenKind::RightParenthesis)?;
        let consequent = self.parse_statement()?;
        let consequent_end = self.cursor.last_end();
        if self.cursor.optional(TokenKind::Else)? {
            let alternative = self.parse_statement()?;
            let alternative_end = self.cursor.last_end();
            Ok(
                Node::Statement(
                    Statement::If(
                        Spanned::new(
                            IfStatement {
                                test: Box::new(test),
                                consequent: Box::new(consequent),
                                alternative: Some(Box::new(alternative)),
                            },
                            Span::new(if_kw_span.start, alternative_end),
                        ),
                    ),
                ),
            )
        } else {
            Ok(
                Node::Statement(
                    Statement::If(
                        Spanned::new(
                            IfStatement {
                                test: Box::new(test),
                                consequent: Box::new(consequent),
                                alternative: None,
                            },
                            Span::new(if_kw_span.start, consequent_end),
                        ),
                    ),
                ),
            )
        }
    }

    /// A block: `{`, statements up to the matching `}`, and that `}`.
    pub fn parse_block(&mut self) -> (r: Result<Node, Box<Error>>)
        requires
            old(self).wf(),
        ensures
            old(self).same_input(final(self)),
            old(self).blames(r),
            agrees(r, block(old(self).stream(), old(self).at()), |n: Node| n@, final(self).at()),
            r is Ok ==> moved(old(self).stream(), old(self).at(), final(self).at()),
        decreases old(self).remaining(), 4int,
    {
        let ghost st = self.stream();
        let ghost at0 = self.at();
        let lcb = self.cursor.consume(TokenKind::LeftCurlyBrace)?;
        let mut statements: Vec<Node> = Vec::new();
        assert(node_trees(statements@) =~= seq![]);
        while !self.cursor.test(TokenKind::RightCurlyBrace) && self.cursor.peek().is_ok()
            invariant
                old(self).same_input(self),
                st == old(self).stream(),
                at0 == old(self).at(),
                moved(st, at0, self.at()),
                block_items(st, self.at(), node_trees(statements@), lcb.chunk.span) == block(
                    st,
                    at0,
                ),
            decreases self.remaining(),
        {
            let item = self.parse_statement()?;
            proof {
                lemma_node_trees_push(statements@, item);
            }
            statements.push(item);
        }
        let rcb = self.cursor.next_token()?;
        Ok(Node::Block(Spanned::new(statements, Span::new(lcb.chunk.span.start, rcb.chunk.span.end))))
    }
}

} // verus!
