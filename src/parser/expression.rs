use vstd::prelude::*;

use crate::common::error::{Diagnostic, Error, ErrorKind};
use crate::common::span::Span;
use crate::lexer::token::TokenKind;
use crate::parser::ast::{Tree, lemma_node_trees_push, node_trees, Expression, Node, Operator, Spanned};
use crate::parser::cursor::agrees;
use crate::parser::grammar::{
    argument_followers, call_arguments, At, argument_list, expression, extend, infix_power, moved,
    operand_kinds, operator_of, lookahead, postfix_power, prefix_power, is_operator_kind,
};
use crate::parser::Parser;

verus! {

impl Operator {
    /// The operator a token class stands for.
    pub fn from_kind(kind: TokenKind) -> (r: Operator)
        requires
            is_operator_kind(kind),
        ensures
            r == operator_of(kind),
    {
        match kind {
            TokenKind::Plus => Operator::Plus,
            TokenKind::Minus => Operator::Minus,
            TokenKind::Multiply => Operator::Multiply,
            TokenKind::Divide => Operator::Divide,
            TokenKind::Assignment => Operator::Assignment,
            TokenKind::Equal => Operator::Equal,
            TokenKind::LessThen => Operator::LessThen,
            TokenKind::GreaterThen => Operator::GreaterThen,
            TokenKind::LessThenEqual => Operator::LessThenEqual,
            _ => Operator::GreaterThenEqual,
        }
    }
}

/// A list of one token class.
pub(crate) fn single(kind: TokenKind) -> (r: Vec<TokenKind>)
    ensures
        r@ == seq![kind],
{
    let mut r: Vec<TokenKind> = Vec::new();
    r.push(kind);
    assert(r@ =~= seq![kind]);
    r
}

/// The classes an operand may start with.
fn operand_kind_list() -> (r: Vec<TokenKind>)
    ensures
        r@ == operand_kinds(),
{
    let mut r: Vec<TokenKind> = Vec::new();
    r.push(TokenKind::Identifier);
    r.push(TokenKind::Integer);
    r.push(TokenKind::Float);
    r.push(TokenKind::LeftParenthesis);
    r.push(TokenKind::Plus);
    r.push(TokenKind::Minus);
    assert(r@ =~= operand_kinds());
    r
}

impl Parser {
    pub fn postfix_binding_power(kind: TokenKind) -> (r: Option<(u8, ())>)
        ensures
            r == match postfix_power(kind) {
                Some(l) => Some((l, ())),
                None => None::<(u8, ())>,
            },
    {
        match kind {
            TokenKind::LeftParenthesis => Some((13, ())),
            _ => None,
        }
    }

    pub fn infix_binding_power(kind: TokenKind) -> (r: Option<(u8, u8)>)
        ensures
            r == infix_power(kind),
            r is Some ==> is_operator_kind(kind),
    {
        match kind {
            TokenKind::Assignment => Some((1, 1)),
            TokenKind::Plus | TokenKind::Minus => Some((2, 3)),
            TokenKind::Multiply | TokenKind::Divide => Some((4, 5)),
            TokenKind::LessThen
            | TokenKind::GreaterThen
            | TokenKind::LessThenEqual
            | TokenKind::GreaterThenEqual => Some((6, 7)),
            TokenKind::Equal => Some((8, 9)),
            _ => None,
        }
    }

    pub fn prefix_binding_power(operator: Operator) -> (r: Option<((), u8)>)
        ensures
            r == match prefix_power(operator) {
                Some(p) => Some(((), p)),
                None => None::<((), u8)>,
            },
    {
        match operator {
            Operator::Plus | Operator::Minus => Some(((), 12)),
            _ => None,
        }
    }

    /// The arguments of a call, after its `(`: none if `)` follows at once,
    /// else expressions separated by commas.
    pub fn arguments(&mut self) -> (r: Result<Vec<Node>, Box<Error>>)
        requires
            old(self).wf(),
        ensures
            old(self).same_input(final(self)),
            old(self).blames(r),
            agrees(
                r,
                call_arguments(old(self).stream(), old(self).at()),
                |v: Vec<Node>| node_trees(v@),
                final(self).at(),
            ),
            r is Ok ==> old(self).at().index <= final(self).at().index <= old(self).stream().lexemes.len(),
        decreases old(self).remaining(), 3int,
    {
        let mut args: Vec<Node> = Vec::new();
        if self.cursor.test(TokenKind::RightParenthesis) {
            assert(node_trees(args@) =~= seq![]);
            return Ok(args);
        }
        let ghost st = self.stream();
        let ghost at0 = self.at();
        assert(call_arguments(st, at0) == argument_list(st, at0, seq![]));
        loop
            invariant
                old(self).same_input(self),
                st == old(self).stream(),
                at0 == old(self).at(),
                moved(st, at0, self.at()) || self.at() == at0,
                argument_list(st, self.at(), node_trees(args@)) == call_arguments(st, at0),
            decreases self.remaining(),
        {
            let ghost before = self.at();
            let ghost acc = node_trees(args@);
            let item = match self.parse_expression(0) {
                Ok(item) => item,
                Err(e) => {
                    assert(expression(st, before, 0) matches Err(d) && d == e@);
                    assert(argument_list(st, before, acc) matches Err(d) && d == e@);
                    return Err(e);
                },
            };
            proof {
                lemma_node_trees_push(args@, item);
            }
            args.push(item);
            if !self.cursor.optional(TokenKind::Comma)? {
                let token = self.cursor.peek()?;
                if token.kind == TokenKind::LeftParenthesis || token.kind == TokenKind::Identifier
                    || token.kind == TokenKind::Float || token.kind == TokenKind::Integer {
                    proof {
                        assert(argument_followers().contains(token.kind)) by {
                            let k = token.kind;
                            let f = argument_followers();
                            if k == TokenKind::LeftParenthesis {
                                assert(f[0] == k);
                            } else if k == TokenKind::Identifier {
                                assert(f[1] == k);
                            } else if k == TokenKind::Float {
                                assert(f[2] == k);
                            } else {
                                assert(f[3] == k);
                            }
                        }
                    }
                    return Err(
                        Box::new(
                            Error::new(
                                ErrorKind::UnexpectedToken {
                                    expected: single(TokenKind::Comma),
                                    received: token.kind,
                                },
                                token.chunk.span,
                                self.source.clone(),
                            ),
                        ),
                    );
                }
                return Ok(args);
            }
        }
    }

    /// An expression whose operators bind at least as tightly as
    /// `minimum_binding_power`: an operand, then calls and infix operators.
    pub fn parse_expression(&mut self, minimum_binding_power: u8) -> (r: Result<Node, Box<Error>>)
        requires
            old(self).wf(),
        ensures
            old(self).same_input(final(self)),
            old(self).blames(r),
            agrees(
                r,
                expression(old(self).stream(), old(self).at(), minimum_binding_power as int),
                |n: Node| n@,
                final(self).at(),
            ),
            r is Ok ==> moved(old(self).stream(), old(self).at(), final(self).at()),
        decreases old(self).remaining(), 2int,
    {
        let ghost st = self.stream();
        let ghost at0 = self.at();
        let ghost min = minimum_binding_power as int;
        let lhs_token = self.cursor.next_token()?;
        let ghost a1 = self.at();
        let mut lhs = match lhs_token.kind {
            TokenKind::Integer => Node::Integer(
                Spanned::new(lhs_token.chunk.data.clone(), lhs_token.chunk.span),
            ),
            TokenKind::Float => Node::Float(
                Spanned::new(lhs_token.chunk.data.clone(), lhs_token.chunk.span),
            ),
            TokenKind::Identifier => Node::Identifier(
                Spanned::new(lhs_token.chunk.data.clone(), lhs_token.chunk.span),
            ),
            TokenKind::LeftParenthesis => {
                let expression = self.parse_expression(0)?;
                self.cursor.consume(TokenKind::RightParenthesis)?;
                expression
            },
            TokenKind::Plus | TokenKind::Minus => {
                let operator = Operator::from_kind(lhs_token.kind);
                let right_binding_power = match Self::prefix_binding_power(operator) {
                    Some(((), p)) => p,
                    None => 12,
                };
                let rhs = self.parse_expression(right_binding_power)?;
                Node::Expression(
                    Expression::Prefix {
                        operator: Spanned::new(operator, lhs_token.chunk.span),
                        value: Box::new(rhs),
                    },
                )
            },
            _ => {
                return Err(
                    Box::new(
                        Error::new(
                            ErrorKind::UnexpectedToken {
                                expected: operand_kind_list(),
                                received: lhs_token.kind,
                            },
                            lhs_token.chunk.span,
                            self.source.clone(),
                        ),
                    ),
                );
            },
        };
        let ghost lead = lhs_token@;
        assert(moved(st, at0, self.at()));
        assert(expression(st, at0, min) == extend(st, self.at(), lead, lhs@, min));
        loop
            invariant
                old(self).same_input(self),
                st == old(self).stream(),
                at0 == old(self).at(),
                min == minimum_binding_power as int,
                moved(st, at0, self.at()),
                lead == lhs_token@,
                lhs_token.lies_in(st.text),
                extend(st, self.at(), lead, lhs@, min) == expression(st, at0, min),
            ensures
                expression(st, at0, min) == Ok::<(Tree, At), Diagnostic>((lhs@, self.at())),
            decreases self.remaining(),
        {
            let ghost before = self.at();
            let (kind, span) = match self.cursor.peek() {
                Ok(operator_token) => (operator_token.kind, operator_token.chunk.span),
                Err(_) => break,
            };
            assert(lookahead(st, before) matches Ok(t) && t.kind == kind && t.span == span);
            if let Some((left_binding_power, ())) = Self::postfix_binding_power(kind) {
                if kind == TokenKind::LeftParenthesis {
                    if left_binding_power < minimum_binding_power {
                        break;
                    }
                    self.cursor.next_token()?;
                    let arguments = self.arguments()?;
                    let closing = self.cursor.consume(TokenKind::RightParenthesis)?;
                    let name = match lhs {
                        Node::Identifier(name) => name,
                        _ => {
                            return Err(
                            Box::new(
                                Error::new(
                                    ErrorKind::UnexpectedToken {
                                        expected: single(TokenKind::Identifier),
                                        received: lhs_token.kind,
                                    },
                                        lhs_token.chunk.span,
                                        self.source.clone(),
                                    ),
                                ),
                            );
                        },
                    };
                    lhs = Node::Expression(
                        Expression::Call {
                            name,
                            arguments: Spanned::new(
                                arguments,
                                Span::new(span.start, closing.chunk.span.end),
                            ),
                        },
                    );
                    continue;
                }
            }
            if let Some((left_binding_power, right_binding_power)) = Self::infix_binding_power(kind) {
                if left_binding_power < minimum_binding_power {
                    break;
                }
                let operator = Operator::from_kind(kind);
                self.cursor.next_token()?;
                let rhs = self.parse_expression(right_binding_power)?;
                lhs = Node::Expression(
                    Expression::Infix { operator, lhs: Box::new(lhs), rhs: Box::new(rhs) },
                );
                continue;
            }
            break;
        }
        Ok(lhs)
    }
}

} // verus!
