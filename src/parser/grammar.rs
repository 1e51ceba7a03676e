use vstd::prelude::*;

use crate::common::error::{Diagnostic, Fault};
use crate::common::span::Span;
use crate::lexer::token::{Lexeme, TokenKind};
use crate::parser::ast::{FunctionTree, Operator, Tree};

verus! {

/// What the parser reads: the source text, the lexemes read from it, and the
/// failure that stopped the reading, if any.
pub struct Stream {
    pub text: Seq<char>,
    pub lexemes: Seq<Lexeme>,
    pub failure: Option<Diagnostic>,
}

/// Where the parser stands: the index of the next lexeme, and the span
/// covered by the lexemes taken since the span was last reset.
pub struct At {
    pub index: int,
    pub span: Option<Span>,
}

/// A parse step's outcome: a value and where the parser then stands, or a failure.
pub type Parsed<V> = Result<(V, At), Diagnostic>;

pub open spec fn text_of(st: Stream, t: Lexeme) -> Seq<char> {
    st.text.subrange(t.span.start as int, t.span.end as int)
}

/// The next lexeme, or why there is none.
pub open spec fn lookahead(st: Stream, at: At) -> Result<Lexeme, Diagnostic> {
    if 0 <= at.index < st.lexemes.len() {
        Ok(st.lexemes[at.index])
    } else {
        match st.failure {
            Some(d) => Err(d),
            None => Err(
                Diagnostic {
                    fault: Fault::UnexpectedEndOfInput,
                    span: match at.span {
                        Some(sp) => sp,
                        None => Span { start: 0, end: 0 },
                    },
                },
            ),
        }
    }
}

/// The running span after taking lexeme `t`.
pub open spec fn grown(span: Option<Span>, t: Lexeme) -> Option<Span> {
    match span {
        Some(sp) => Some(Span { start: sp.start, end: t.span.end }),
        None => Some(t.span),
    }
}

pub open spec fn advance(st: Stream, at: At) -> At {
    At { index: at.index + 1, span: grown(at.span, st.lexemes[at.index]) }
}

/// Takes the next lexeme.
pub open spec fn take(st: Stream, at: At) -> Parsed<Lexeme> {
    match lookahead(st, at) {
        Ok(t) => Ok((t, advance(st, at))),
        Err(d) => Err(d),
    }
}

/// Whether the next lexeme is of class `k`.
pub open spec fn check(st: Stream, at: At, k: TokenKind) -> bool {
    lookahead(st, at) matches Ok(t) && t.kind == k
}

pub open spec fn unexpected(expected: Seq<TokenKind>, t: Lexeme) -> Diagnostic {
    Diagnostic { fault: Fault::UnexpectedToken { expected, received: t.kind }, span: t.span }
}

/// Takes the next lexeme, which must be of class `k`.
pub open spec fn expect(st: Stream, at: At, k: TokenKind) -> Parsed<Lexeme> {
    match lookahead(st, at) {
        Ok(t) => if t.kind == k {
            Ok((t, advance(st, at)))
        } else {
            Err(unexpected(seq![k], t))
        },
        Err(d) => Err(d),
    }
}

/// Takes the next lexeme if it is of class `k`, and says whether it did.
pub open spec fn skip_if(st: Stream, at: At, k: TokenKind) -> (bool, At) {
    if check(st, at, k) {
        (true, advance(st, at))
    } else {
        (false, at)
    }
}

/// Where the last lexeme taken before `at` ends.
pub open spec fn last_end(st: Stream, at: At) -> usize {
    st.lexemes[at.index - 1].span.end
}

/// The parser moved forward from `a` to `b`, within the lexemes.
pub open spec fn moved(st: Stream, a: At, b: At) -> bool {
    a.index < b.index <= st.lexemes.len()
}

/// Stands for a step that would not move forward. Every parsing function
/// proves that each step it takes moves forward, so this never comes out.
pub open spec fn stalled() -> Diagnostic {
    Diagnostic { fault: Fault::UnexpectedEndOfInput, span: Span { start: 0, end: 0 } }
}

pub open spec fn operator_of(k: TokenKind) -> Operator {
    match k {
        TokenKind::Minus => Operator::Minus,
        TokenKind::Multiply => Operator::Multiply,
        TokenKind::Divide => Operator::Divide,
        TokenKind::Assignment => Operator::Assignment,
        TokenKind::Equal => Operator::Equal,
        TokenKind::LessThen => Operator::LessThen,
        TokenKind::GreaterThen => Operator::GreaterThen,
        TokenKind::LessThenEqual => Operator::LessThenEqual,
        TokenKind::GreaterThenEqual => Operator::GreaterThenEqual,
        _ => Operator::Plus,
    }
}

pub open spec fn is_operator_kind(k: TokenKind) -> bool {
    match k {
        TokenKind::Plus | TokenKind::Minus | TokenKind::Multiply | TokenKind::Divide
        | TokenKind::Assignment | TokenKind::Equal | TokenKind::LessThen | TokenKind::GreaterThen
        | TokenKind::LessThenEqual | TokenKind::GreaterThenEqual => true,
        _ => false,
    }
}

/// Left and right binding power of an infix operator; higher binds tighter.
pub open spec fn infix_power(k: TokenKind) -> Option<(u8, u8)> {
    match k {
        TokenKind::Assignment => Some((1, 1)),
        TokenKind::Plus | TokenKind::Minus => Some((2, 3)),
        TokenKind::Multiply | TokenKind::Divide => Some((4, 5)),
        TokenKind::LessThen | TokenKind::GreaterThen | TokenKind::LessThenEqual
        | TokenKind::GreaterThenEqual => Some((6, 7)),
        TokenKind::Equal => Some((8, 9)),
        _ => None,
    }
}

/// Left binding power of a postfix operator: a call's `(`.
pub open spec fn postfix_power(k: TokenKind) -> Option<u8> {
    match k {
        TokenKind::LeftParenthesis => Some(13),
        _ => None,
    }
}

/// Right binding power of a prefix operator.
pub open spec fn prefix_power(op: Operator) -> Option<u8> {
    match op {
        Operator::Plus | Operator::Minus => Some(12),
        _ => None,
    }
}

/// The classes an operand may start with.
pub open spec fn operand_kinds() -> Seq<TokenKind> {
    seq![
        TokenKind::Identifier,
        TokenKind::Integer,
        TokenKind::Float,
        TokenKind::LeftParenthesis,
        TokenKind::Plus,
        TokenKind::Minus,
    ]
}

/// The classes that, after a call argument, show that a comma is missing.
pub open spec fn argument_followers() -> Seq<TokenKind> {
    seq![TokenKind::LeftParenthesis, TokenKind::Identifier, TokenKind::Float, TokenKind::Integer]
}

/// The classes that, after a declared parameter, show that a comma is missing.
pub open spec fn parameter_followers() -> Seq<TokenKind> {
    seq![TokenKind::Identifier]
}

/// An operand: a literal, a name, a parenthesized expression, or a prefix
/// operator and its operand.
pub open spec fn operand(st: Stream, at: At) -> Parsed<Tree>
    decreases st.lexemes.len() - at.index, 1int,
{
    match take(st, at) {
        Err(d) => Err(d),
        Ok((t, a1)) => if t.kind == TokenKind::Integer {
            Ok((Tree::Integer { text: text_of(st, t), span: t.span }, a1))
        } else if t.kind == TokenKind::Float {
            Ok((Tree::Float { text: text_of(st, t), span: t.span }, a1))
        } else if t.kind == TokenKind::Identifier {
            Ok((Tree::Identifier { text: text_of(st, t), span: t.span }, a1))
        } else if t.kind == TokenKind::LeftParenthesis {
            match expression(st, a1, 0) {
                Ok((e, a2)) => match expect(st, a2, TokenKind::RightParenthesis) {
                    Ok((_, a3)) => Ok((e, a3)),
                    Err(d) => Err(d),
                },
                Err(d) => Err(d),
            }
        } else if t.kind == TokenKind::Plus || t.kind == TokenKind::Minus {
            match expression(st, a1, 12) {
                Ok((e, a2)) => Ok(
                    (
                        Tree::Prefix { operator: operator_of(t.kind), at: t.span, operand: Box::new(e) },
                        a2,
                    ),
                ),
                Err(d) => Err(d),
            }
        } else {
            Err(unexpected(operand_kinds(), t))
        },
    }
}

/// An expression whose operators bind at least as tightly as `min`: an
/// operand, extended with calls and infix operators.
pub open spec fn expression(st: Stream, at: At, min: int) -> Parsed<Tree>
    decreases st.lexemes.len() - at.index, 2int,
{
    match operand(st, at) {
        Err(d) => Err(d),
        Ok((lhs, a1)) => if moved(st, at, a1) {
            extend(st, a1, st.lexemes[at.index], lhs, min)
        } else {
            Err(stalled())
        },
    }
}

/// Extends `lhs`, whose first lexeme was `lead`, with calls and with infix
/// operators that bind at least as tightly as `min`. Only a bare name can be
/// called; a call on anything else is reported at `lead`.
pub open spec fn extend(st: Stream, at: At, lead: Lexeme, lhs: Tree, min: int) -> Parsed<Tree>
    decreases st.lexemes.len() - at.index, 0int,
{
    match lookahead(st, at) {
        Err(_) => Ok((lhs, at)),
        Ok(t) => if t.kind == TokenKind::LeftParenthesis {
            if 13 < min {
                Ok((lhs, at))
            } else {
                match call_arguments(st, advance(st, at)) {
                    Err(d) => Err(d),
                    Ok((args, a2)) => match expect(st, a2, TokenKind::RightParenthesis) {
                        Err(d) => Err(d),
                        Ok((rp, a3)) => if let Tree::Identifier { text, span } = lhs {
                            if moved(st, at, a3) {
                                extend(
                                    st,
                                    a3,
                                    lead,
                                    Tree::Call {
                                        name: text,
                                        at: span,
                                        arguments: args,
                                        parens: Span { start: t.span.start, end: rp.span.end },
                                    },
                                    min,
                                )
                            } else {
                                Err(stalled())
                            }
                        } else {
                            Err(unexpected(seq![TokenKind::Identifier], lead))
                        },
                    },
                }
            }
        } else {
            match infix_power(t.kind) {
                Some((l, r)) => if (l as int) < min {
                    Ok((lhs, at))
                } else {
                    match expression(st, advance(st, at), r as int) {
                        Ok((rhs, a2)) => if moved(st, at, a2) {
                            extend(
                                st,
                                a2,
                                lead,
                                Tree::Infix {
                                    operator: operator_of(t.kind),
                                    lhs: Box::new(lhs),
                                    rhs: Box::new(rhs),
                                },
                                min,
                            )
                        } else {
                            Err(stalled())
                        },
                        Err(d) => Err(d),
                    }
                },
                None => Ok((lhs, at)),
            }
        },
    }
}

/// The arguments of a call, after its `(`: none if `)` follows at once.
pub open spec fn call_arguments(st: Stream, at: At) -> Parsed<Seq<Tree>>
    decreases st.lexemes.len() - at.index, 4int,
{
    if check(st, at, TokenKind::RightParenthesis) {
        Ok((seq![], at))
    } else {
        argument_list(st, at, seq![])
    }
}

/// Comma-separated expressions after the ones in `acc`.
pub open spec fn argument_list(st: Stream, at: At, acc: Seq<Tree>) -> Parsed<Seq<Tree>>
    decreases st.lexemes.len() - at.index, 3int,
{
    match expression(st, at, 0) {
        Err(d) => Err(d),
        Ok((e, a1)) => {
            let items = acc.push(e);
            if check(st, a1, TokenKind::Comma) {
                let a2 = advance(st, a1);
                if moved(st, at, a2) {
                    argument_list(st, a2, items)
                } else {
                    Err(stalled())
                }
            } else {
                match lookahead(st, a1) {
                    Err(d) => Err(d),
                    Ok(t) => if argument_followers().contains(t.kind) {
                        Err(unexpected(seq![TokenKind::Comma], t))
                    } else {
                        Ok((items, a1))
                    },
                }
            }
        },
    }
}

/// One declared parameter: `name : type`.
pub open spec fn parameter(st: Stream, at: At) -> Parsed<(Seq<char>, Seq<char>)> {
    match expect(st, at, TokenKind::Identifier) {
        Err(d) => Err(d),
        Ok((name, a1)) => match expect(st, a1, TokenKind::Colon) {
            Err(d) => Err(d),
            Ok((_, a2)) => match expect(st, a2, TokenKind::Identifier) {
                Err(d) => Err(d),
                Ok((ty, a3)) => Ok(((text_of(st, name), text_of(st, ty)), a3)),
            },
        },
    }
}

/// The parameters of a function, after its `(`: none if `)` follows at once.
pub open spec fn parameters(st: Stream, at: At) -> Parsed<Seq<(Seq<char>, Seq<char>)>> {
    if check(st, at, TokenKind::RightParenthesis) {
        Ok((seq![], at))
    } else {
        parameter_list(st, at, seq![])
    }
}

/// Comma-separated parameters after the ones in `acc`.
pub open spec fn parameter_list(st: Stream, at: At, acc: Seq<(Seq<char>, Seq<char>)>) -> Parsed<
    Seq<(Seq<char>, Seq<char>)>,
>
    decreases st.lexemes.len() - at.index,
{
    match parameter(st, at) {
        Err(d) => Err(d),
        Ok((p, a1)) => {
            let items = acc.push(p);
            if check(st, a1, TokenKind::Comma) {
                let a2 = advance(st, a1);
                if moved(st, at, a2) {
                    parameter_list(st, a2, items)
                } else {
                    Err(stalled())
                }
            } else {
                match lookahead(st, a1) {
                    Err(d) => Err(d),
                    Ok(t) => if parameter_followers().contains(t.kind) {
                        Err(unexpected(seq![TokenKind::Comma], t))
                    } else {
                        Ok((items, a1))
                    },
                }
            }
        },
    }
}

/// A statement: `while`, `if`, `return`, `let`, a block, or an expression
/// followed by `;`.
pub open spec fn statement(st: Stream, at: At) -> Parsed<Tree>
    decreases st.lexemes.len() - at.index, 5int,
{
    match lookahead(st, at) {
        Err(d) => Err(d),
        Ok(t) => if t.kind == TokenKind::While {
            while_rest(st, advance(st, at), t.span)
        } else if t.kind == TokenKind::LeftCurlyBrace {
            block(st, at)
        } else if t.kind == TokenKind::If {
            if_rest(st, advance(st, at), t.span)
        } else if t.kind == TokenKind::Return {
            return_rest(st, advance(st, at), t.span)
        } else if t.kind == TokenKind::Let {
            let_rest(st, advance(st, at), t.span)
        } else {
            match expression(st, at, 0) {
                Err(d) => Err(d),
                Ok((e, a1)) => match expect(st, a1, TokenKind::Semicolon) {
                    Err(d) => Err(d),
                    Ok((_, a2)) => Ok((e, a2)),
                },
            }
        },
    }
}

/// A parenthesized test and the statement it guards.
pub open spec fn guarded(st: Stream, at: At) -> Parsed<(Tree, Tree)>
    decreases st.lexemes.len() - at.index, 6int,
{
    match expect(st, at, TokenKind::LeftParenthesis) {
        Err(d) => Err(d),
        Ok((_, a1)) => match expression(st, a1, 0) {
            Err(d) => Err(d),
            Ok((test, a2)) => match expect(st, a2, TokenKind::RightParenthesis) {
                Err(d) => Err(d),
                Ok((_, a3)) => if moved(st, at, a3) {
                    match statement(st, a3) {
                        Err(d) => Err(d),
                        Ok((body, a4)) => Ok(((test, body), a4)),
                    }
                } else {
                    Err(stalled())
                },
            },
        },
    }
}

/// The rest of a `while` statement whose keyword spans `kw`.
pub open spec fn while_rest(st: Stream, at: At, kw: Span) -> Parsed<Tree>
    decreases st.lexemes.len() - at.index, 7int,
{
    match guarded(st, at) {
        Err(d) => Err(d),
        Ok(((test, body), a1)) => Ok(
            (
                Tree::While {
                    test: Box::new(test),
                    body: Box::new(body),
                    span: Span { start: kw.start, end: last_end(st, a1) },
                },
                a1,
            ),
        ),
    }
}

/// The rest of an `if` statement whose keyword spans `kw`.
pub open spec fn if_rest(st: Stream, at: At, kw: Span) -> Parsed<Tree>
    decreases st.lexemes.len() - at.index, 7int,
{
    match guarded(st, at) {
        Err(d) => Err(d),
        Ok(((test, consequent), a1)) => {
            let (has_else, a2) = skip_if(st, a1, TokenKind::Else);
            if !has_else {
                Ok(
                    (
                        Tree::If {
                            test: Box::new(test),
                            consequent: Box::new(consequent),
                            alternative: None,
                            span: Span { start: kw.start, end: last_end(st, a1) },
                        },
                        a1,
                    ),
                )
            } else if moved(st, at, a2) {
                match statement(st, a2) {
                    Err(d) => Err(d),
                    Ok((alternative, a3)) => Ok(
                        (
                            Tree::If {
                                test: Box::new(test),
                                consequent: Box::new(consequent),
                                alternative: Some(Box::new(alternative)),
                                span: Span { start: kw.start, end: last_end(st, a3) },
                            },
                            a3,
                        ),
                    ),
                }
            } else {
                Err(stalled())
            }
        },
    }
}

/// The rest of a `return` statement whose keyword spans `kw`.
pub open spec fn return_rest(st: Stream, at: At, kw: Span) -> Parsed<Tree>
    decreases st.lexemes.len() - at.index, 7int,
{
    if check(st, at, TokenKind::Semicolon) {
        match take(st, at) {
            Err(d) => Err(d),
            Ok((semi, a1)) => Ok(
                (Tree::Return { value: None, span: Span { start: kw.start, end: semi.span.end } }, a1),
            ),
        }
    } else {
        match expression(st, at, 0) {
            Err(d) => Err(d),
            Ok((e, a1)) => match expect(st, a1, TokenKind::Semicolon) {
                Err(d) => Err(d),
                Ok((semi, a2)) => Ok(
                    (
                        Tree::Return {
                            value: Some(Box::new(e)),
                            span: Span { start: kw.start, end: semi.span.end },
                        },
                        a2,
                    ),
                ),
            },
        }
    }
}

/// The optional `= expression` of a `let` statement.
pub open spec fn initializer(st: Stream, at: At) -> Parsed<Option<Box<Tree>>>
    decreases st.lexemes.len() - at.index, 3int,
{
    let (has_init, a1) = skip_if(st, at, TokenKind::Assignment);
    if !has_init {
        Ok((None, at))
    } else {
        match expression(st, a1, 0) {
            Err(d) => Err(d),
            Ok((e, a2)) => Ok((Some(Box::new(e)), a2)),
        }
    }
}

/// The optional `: type` of a `let` statement.
pub open spec fn type_annotation(st: Stream, at: At) -> Parsed<Option<Seq<char>>> {
    let (has_type, a1) = skip_if(st, at, TokenKind::Colon);
    if !has_type {
        Ok((None, at))
    } else {
        match expect(st, a1, TokenKind::Identifier) {
            Err(d) => Err(d),
            Ok((ty, a2)) => Ok((Some(text_of(st, ty)), a2)),
        }
    }
}

/// The rest of a `let` statement whose keyword spans `kw`.
pub open spec fn let_rest(st: Stream, at: At, kw: Span) -> Parsed<Tree>
    decreases st.lexemes.len() - at.index, 7int,
{
    let (mutable, a1) = skip_if(st, at, TokenKind::Mut);
    match expect(st, a1, TokenKind::Identifier) {
        Err(d) => Err(d),
        Ok((name, a2)) => match type_annotation(st, a2) {
            Err(d) => Err(d),
            Ok((value_type, a3)) => if moved(st, at, a3) {
                match initializer(st, a3) {
                    Err(d) => Err(d),
                    Ok((init, a4)) => match expect(st, a4, TokenKind::Semicolon) {
                        Err(d) => Err(d),
                        Ok((semi, a5)) => Ok(
                            (
                                Tree::Let {
                                    mutable,
                                    name: text_of(st, name),
                                    value_type,
                                    init,
                                    span: Span { start: kw.start, end: semi.span.end },
                                },
                                a5,
                            ),
                        ),
                    },
                }
            } else {
                Err(stalled())
            },
        },
    }
}

/// A block: `{`, statements, `}`.
pub open spec fn block(st: Stream, at: At) -> Parsed<Tree>
    decreases st.lexemes.len() - at.index, 4int,
{
    match expect(st, at, TokenKind::LeftCurlyBrace) {
        Err(d) => Err(d),
        Ok((lcb, a1)) => block_items(st, a1, seq![], lcb.span),
    }
}

/// The statements of a block after the ones in `acc`, up to and with its `}`;
/// the block's `{` spans `open`.
pub open spec fn block_items(st: Stream, at: At, acc: Seq<Tree>, open: Span) -> Parsed<Tree>
    decreases st.lexemes.len() - at.index, 8int,
{
    if !check(st, at, TokenKind::RightCurlyBrace) && lookahead(st, at) is Ok {
        match statement(st, at) {
            Err(d) => Err(d),
            Ok((item, a1)) => if moved(st, at, a1) {
                block_items(st, a1, acc.push(item), open)
            } else {
                Err(stalled())
            },
        }
    } else {
        match take(st, at) {
            Err(d) => Err(d),
            Ok((rcb, a1)) => Ok(
                (Tree::Block { items: acc, span: Span { start: open.start, end: rcb.span.end } }, a1),
            ),
        }
    }
}

/// The optional `-> type` of a function.
pub open spec fn return_annotation(st: Stream, at: At) -> Parsed<Option<Seq<char>>> {
    let (has_type, a1) = skip_if(st, at, TokenKind::Arrow);
    if !has_type {
        Ok((None, at))
    } else {
        match expect(st, a1, TokenKind::Identifier) {
            Err(d) => Err(d),
            Ok((ty, a2)) => Ok((Some(text_of(st, ty)), a2)),
        }
    }
}

/// A function declaration after its `function` keyword: name, parameters,
/// optional return type, and body.
pub open spec fn function_declaration(st: Stream, at: At) -> Parsed<FunctionTree> {
    match expect(st, at, TokenKind::Identifier) {
        Err(d) => Err(d),
        Ok((name, a1)) => match expect(st, a1, TokenKind::LeftParenthesis) {
            Err(d) => Err(d),
            Ok((_, a2)) => match parameters(st, a2) {
                Err(d) => Err(d),
                Ok((arguments, a3)) => match expect(st, a3, TokenKind::RightParenthesis) {
                    Err(d) => Err(d),
                    Ok((_, a4)) => match return_annotation(st, a4) {
                        Err(d) => Err(d),
                        Ok((return_type, a5)) => match block(st, a5) {
                            Err(d) => Err(d),
                            Ok((body, a6)) => Ok(
                                (
                                    FunctionTree {
                                        name: text_of(st, name),
                                        arguments,
                                        body,
                                        return_type,
                                    },
                                    a6,
                                ),
                            ),
                        },
                    },
                },
            },
        },
    }
}

/// The function declarations after the ones in `acc`, up to the end of the
/// lexemes.
pub open spec fn function_list(st: Stream, at: At, acc: Seq<FunctionTree>) -> Parsed<Seq<FunctionTree>>
    decreases st.lexemes.len() - at.index,
{
    match lookahead(st, at) {
        Err(d) => if at.index >= st.lexemes.len() && st.failure is None {
            Ok((acc, at))
        } else {
            Err(d)
        },
        Ok(t) => if t.kind == TokenKind::Function {
            match function_declaration(st, advance(st, at)) {
                Err(d) => Err(d),
                Ok((f, a1)) => if moved(st, at, a1) {
                    function_list(st, a1, acc.push(f))
                } else {
                    Err(stalled())
                },
            }
        } else {
            Err(unexpected(seq![TokenKind::Function], t))
        },
    }
}

} // verus!
