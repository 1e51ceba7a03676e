use vstd::prelude::*;

use crate::common::span::Span;
use crate::lexer::token::TokenKind;
use crate::parser::ast::{tree_span, Tree};
use crate::parser::grammar::{
    advance, argument_list, call_arguments, expect, expression, extend, infix_power, lookahead,
    moved, operand, text_of, take, At, Stream,
};

verus! {

/// Whether every `(` among the lexemes from index `i` up to `j` follows a
/// name or a `)`, so that each one opens the arguments of a call and none
/// opens a parenthesized group.
#[verifier::opaque]
pub open spec fn no_grouping(st: Stream, i: int, j: int) -> bool {
    forall|k: int|
        i <= k < j && (#[trigger] st.lexemes[k]).kind == TokenKind::LeftParenthesis ==> i < k && (
        st.lexemes[k - 1].kind == TokenKind::Identifier || st.lexemes[k - 1].kind
            == TokenKind::RightParenthesis)
}

/// The span from the start of lexeme `i` to the end of lexeme `j - 1`.
pub open spec fn covered(st: Stream, i: int, j: int) -> Span {
    Span { start: st.lexemes[i].span.start, end: st.lexemes[j - 1].span.end }
}

proof fn lemma_no_grouping_within(st: Stream, i: int, j: int, i2: int, j2: int)
    requires
        no_grouping(st, i, j),
        i < i2,
        j2 <= j,
        0 < i2 <= st.lexemes.len(),
        st.lexemes[i2 - 1].kind != TokenKind::Identifier,
        st.lexemes[i2 - 1].kind != TokenKind::RightParenthesis,
    ensures
        no_grouping(st, i2, j2),
{
    reveal(no_grouping);
    assert forall|k: int|
        i2 <= k < j2 && (#[trigger] st.lexemes[k]).kind == TokenKind::LeftParenthesis implies i2 < k
        && (st.lexemes[k - 1].kind == TokenKind::Identifier || st.lexemes[k - 1].kind
        == TokenKind::RightParenthesis) by {
        assert(i <= k < j);
    }
}

proof fn lemma_operand(st: Stream, at: At)
    requires
        0 <= at.index,
    ensures
        operand(st, at) matches Ok((t, a)) ==> at.index < a.index <= st.lexemes.len() && (no_grouping(
            st,
            at.index,
            a.index,
        ) ==> tree_span(t) == covered(st, at.index, a.index)),
    decreases st.lexemes.len() - at.index, 1int,
{
    if let Ok((t, a1)) = take(st, at) {
        if t.kind == TokenKind::LeftParenthesis {
            lemma_expression_covers_lexemes(st, a1, 0);
            if let Ok((t2, a)) = operand(st, at) {
                assert(st.lexemes[at.index].kind == TokenKind::LeftParenthesis);
                assert(!no_grouping(st, at.index, a.index)) by {
                    reveal(no_grouping);
                }
            }
        } else if t.kind == TokenKind::Plus || t.kind == TokenKind::Minus {
            lemma_expression_covers_lexemes(st, a1, 12);
            if let Ok((t2, a)) = operand(st, at) {
                if no_grouping(st, at.index, a.index) {
                    lemma_no_grouping_within(st, at.index, a.index, a1.index, a.index);
                }
            }
        }
    }
}

/// An expression the parser builds covers its lexemes: it ends past where it
/// started, and, where no parenthesized group stands among those lexemes,
/// its computed span runs from the start of the first to the end of the last.
pub proof fn lemma_expression_covers_lexemes(st: Stream, at: At, min: int)
    requires
        0 <= at.index,
    ensures
        expression(st, at, min) matches Ok((t, a)) ==> at.index < a.index <= st.lexemes.len() && (
        no_grouping(st, at.index, a.index) ==> tree_span(t) == covered(st, at.index, a.index)),
    decreases st.lexemes.len() - at.index, 2int,
{
    lemma_operand(st, at);
    if let Ok((lhs, a1)) = operand(st, at) {
        if moved(st, at, a1) {
            lemma_extend_covers_lexemes(st, a1, at.index, lhs, min);
            if let Ok((t, a)) = expression(st, at, min) {
                if no_grouping(st, at.index, a.index) {
                    assert(no_grouping(st, at.index, a1.index)) by {
                        reveal(no_grouping);
                    }
                }
            }
        }
    }
}

/// Extending an operand keeps that property: if `lhs`, which began at
/// lexeme `i`, covers the lexemes up to `at`, the extended expression
/// covers the lexemes up to where it stops.
pub proof fn lemma_extend_covers_lexemes(st: Stream, at: At, i: int, lhs: Tree, min: int)
    requires
        0 <= i < at.index <= st.lexemes.len(),
    ensures
        extend(st, at, st.lexemes[i], lhs, min) matches Ok((t, a)) ==> at.index <= a.index
            <= st.lexemes.len() && (no_grouping(st, i, a.index) && tree_span(lhs) == covered(
            st,
            i,
            at.index,
        ) ==> tree_span(t) == covered(st, i, a.index)),
    decreases st.lexemes.len() - at.index, 0int,
{
    let lead = st.lexemes[i];
    if let Ok(t) = lookahead(st, at) {
        if t.kind == TokenKind::LeftParenthesis {
            if !(13 < min) {
                let a1 = advance(st, at);
                lemma_call_arguments(st, a1);
                if let Ok((args, a2)) = call_arguments(st, a1) {
                    if let Ok((rp, a3)) = expect(st, a2, TokenKind::RightParenthesis) {
                        if lhs is Identifier && moved(st, at, a3) {
                            let call = Tree::Call {
                                name: lhs->Identifier_text,
                                at: lhs->Identifier_span,
                                arguments: args,
                                parens: Span { start: t.span.start, end: rp.span.end },
                            };
                            lemma_extend_covers_lexemes(st, a3, i, call, min);
                        }
                    }
                }
            }
        } else if let Some((l, r)) = infix_power(t.kind) {
            if !((l as int) < min) {
                let a1 = advance(st, at);
                lemma_expression_covers_lexemes(st, a1, r as int);
                if let Ok((rhs, a2)) = expression(st, a1, r as int) {
                    if moved(st, at, a2) {
                        let infix = Tree::Infix {
                            operator: crate::parser::grammar::operator_of(t.kind),
                            lhs: Box::new(lhs),
                            rhs: Box::new(rhs),
                        };
                        lemma_extend_covers_lexemes(st, a2, i, infix, min);
                        if let Ok((t2, a)) = extend(st, at, lead, lhs, min) {
                            if no_grouping(st, i, a.index) {
                                lemma_no_grouping_within(st, i, a.index, a1.index, a2.index);
                            }
                        }
                    }
                }
            }
        }
    }
}

proof fn lemma_call_arguments(st: Stream, at: At)
    requires
        0 <= at.index,
    ensures
        call_arguments(st, at) matches Ok((_, a)) ==> at.index <= a.index <= st.lexemes.len(),
    decreases st.lexemes.len() - at.index, 4int,
{
    lemma_argument_list(st, at, seq![]);
}

proof fn lemma_argument_list(st: Stream, at: At, acc: Seq<Tree>)
    requires
        0 <= at.index,
    ensures
        argument_list(st, at, acc) matches Ok((_, a)) ==> at.index < a.index <= st.lexemes.len(),
    decreases st.lexemes.len() - at.index, 3int,
{
    lemma_expression_covers_lexemes(st, at, 0);
    if let Ok((e, a1)) = expression(st, at, 0) {
        let a2 = advance(st, a1);
        if moved(st, at, a2) {
            lemma_argument_list(st, a2, acc.push(e));
        }
    }
}

} // verus!
