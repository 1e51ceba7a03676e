use vstd::prelude::*;

use crate::lexer::token::{Lexeme, TokenKind};
use crate::parser::ast::{Operator, Tree};
use crate::parser::grammar::{
    advance, expression, extend, infix_power, lookahead, operand, operator_of, text_of, At,
    Stream,
};

verus! {

/// Whether a lexeme of class `k` is an operand by itself.
pub open spec fn is_leaf_kind(k: TokenKind) -> bool {
    k == TokenKind::Integer || k == TokenKind::Float || k == TokenKind::Identifier
}

/// The tree of an operand that is a single literal or name.
pub open spec fn leaf(st: Stream, t: Lexeme) -> Tree {
    if t.kind == TokenKind::Integer {
        Tree::Integer { text: text_of(st, t), span: t.span }
    } else if t.kind == TokenKind::Float {
        Tree::Float { text: text_of(st, t), span: t.span }
    } else {
        Tree::Identifier { text: text_of(st, t), span: t.span }
    }
}

pub open spec fn left_power(k: TokenKind) -> int {
    infix_power(k)->Some_0.0 as int
}

pub open spec fn right_power(k: TokenKind) -> int {
    infix_power(k)->Some_0.1 as int
}

proof fn lemma_leaf_operand(st: Stream, at: At)
    requires
        0 <= at.index < st.lexemes.len(),
        is_leaf_kind(st.lexemes[at.index].kind),
    ensures
        operand(st, at) == Ok::<(Tree, At), crate::common::error::Diagnostic>(
            (leaf(st, st.lexemes[at.index]), advance(st, at)),
        ),
{
}

/// Precedence and associativity of two infix operators: in `x p y q z`,
/// where `x`, `y`, `z` are literals or names and nothing follows, `q` takes
/// `y` from `p` exactly when its left binding power is at least `p`'s right
/// binding power. So `*` binds tighter than `+`, `+` and `*` chains nest to
/// the left, and `=` chains nest to the right.
pub proof fn lemma_two_operators(st: Stream, at: At)
    requires
        0 <= at.index,
        at.index + 5 == st.lexemes.len(),
        is_leaf_kind(st.lexemes[at.index].kind),
        infix_power(st.lexemes[at.index + 1].kind) is Some,
        is_leaf_kind(st.lexemes[at.index + 2].kind),
        infix_power(st.lexemes[at.index + 3].kind) is Some,
        is_leaf_kind(st.lexemes[at.index + 4].kind),
    ensures
        ({
            let i = at.index;
            let x = leaf(st, st.lexemes[i]);
            let p = st.lexemes[i + 1].kind;
            let y = leaf(st, st.lexemes[i + 2]);
            let q = st.lexemes[i + 3].kind;
            let z = leaf(st, st.lexemes[i + 4]);
            expression(st, at, 0) matches Ok((t, a)) && a.index == st.lexemes.len() && t == if left_power(q)
                >= right_power(p) {
                Tree::Infix {
                    operator: operator_of(p),
                    lhs: Box::new(x),
                    rhs: Box::new(
                        Tree::Infix { operator: operator_of(q), lhs: Box::new(y), rhs: Box::new(z) },
                    ),
                }
            } else {
                Tree::Infix {
                    operator: operator_of(q),
                    lhs: Box::new(
                        Tree::Infix { operator: operator_of(p), lhs: Box::new(x), rhs: Box::new(y) },
                    ),
                    rhs: Box::new(z),
                }
            }
        }),
{
    let i = at.index;
    let lx = st.lexemes[i];
    let ly = st.lexemes[i + 2];
    let lz = st.lexemes[i + 4];
    let x = leaf(st, lx);
    let p = st.lexemes[i + 1].kind;
    let y = leaf(st, ly);
    let q = st.lexemes[i + 3].kind;
    let z = leaf(st, lz);
    let rp = right_power(p);
    let rq = right_power(q);
    let a1 = advance(st, at);
    let a2 = advance(st, a1);
    let a3 = advance(st, a2);
    let a4 = advance(st, a3);
    let a5 = advance(st, a4);
    lemma_leaf_operand(st, at);
    lemma_leaf_operand(st, a2);
    lemma_leaf_operand(st, a4);
    assert(lookahead(st, a5) is Err);
    let xz = Tree::Infix { operator: operator_of(q), lhs: Box::new(y), rhs: Box::new(z) };
    let xy = Tree::Infix { operator: operator_of(p), lhs: Box::new(x), rhs: Box::new(y) };
    assert(expression(st, a4, rq) == Ok::<(Tree, At), crate::common::error::Diagnostic>((z, a5))) by {
        assert(extend(st, a5, lz, z, rq) == Ok::<(Tree, At), crate::common::error::Diagnostic>(
            (z, a5),
        ));
    }
    if left_power(q) >= rp {
        assert(extend(st, a5, ly, xz, rp) == Ok::<(Tree, At), crate::common::error::Diagnostic>(
            (xz, a5),
        ));
        assert(extend(st, a3, ly, y, rp) == Ok::<(Tree, At), crate::common::error::Diagnostic>(
            (xz, a5),
        ));
        assert(expression(st, a2, rp) == Ok::<(Tree, At), crate::common::error::Diagnostic>(
            (xz, a5),
        ));
        let whole = Tree::Infix { operator: operator_of(p), lhs: Box::new(x), rhs: Box::new(xz) };
        assert(extend(st, a5, lx, whole, 0) == Ok::<(Tree, At), crate::common::error::Diagnostic>(
            (whole, a5),
        ));
        assert(extend(st, a1, lx, x, 0) == Ok::<(Tree, At), crate::common::error::Diagnostic>(
            (whole, a5),
        ));
    } else {
        assert(extend(st, a3, ly, y, rp) == Ok::<(Tree, At), crate::common::error::Diagnostic>(
            (y, a3),
        ));
        assert(expression(st, a2, rp) == Ok::<(Tree, At), crate::common::error::Diagnostic>(
            (y, a3),
        ));
        let whole = Tree::Infix { operator: operator_of(q), lhs: Box::new(xy), rhs: Box::new(z) };
        assert(expression(st, a4, rq) == Ok::<(Tree, At), crate::common::error::Diagnostic>(
            (z, a5),
        ));
        assert(extend(st, a5, lx, whole, 0) == Ok::<(Tree, At), crate::common::error::Diagnostic>(
            (whole, a5),
        ));
        assert(extend(st, a3, lx, xy, 0) == Ok::<(Tree, At), crate::common::error::Diagnostic>(
            (whole, a5),
        ));
        assert(extend(st, a1, lx, x, 0) == Ok::<(Tree, At), crate::common::error::Diagnostic>(
            (whole, a5),
        ));
    }
}

/// Assignment chains nest to the right: `x = y = z` reads as `x = (y = z)`.
pub proof fn lemma_assignment_nests_right(st: Stream, at: At)
    requires
        0 <= at.index,
        at.index + 5 == st.lexemes.len(),
        is_leaf_kind(st.lexemes[at.index].kind),
        st.lexemes[at.index + 1].kind == TokenKind::Assignment,
        is_leaf_kind(st.lexemes[at.index + 2].kind),
        st.lexemes[at.index + 3].kind == TokenKind::Assignment,
        is_leaf_kind(st.lexemes[at.index + 4].kind),
    ensures
        ({
            expression(st, at, 0) matches Ok((t, _)) && t == Tree::Infix {
            operator: Operator::Assignment,
            lhs: Box::new(leaf(st, st.lexemes[at.index])),
            rhs: Box::new(
                Tree::Infix {
                    operator: Operator::Assignment,
                    lhs: Box::new(leaf(st, st.lexemes[at.index + 2])),
                    rhs: Box::new(leaf(st, st.lexemes[at.index + 4])),
                },
            ),
        }
        }),
{
    lemma_two_operators(st, at);
}

/// Multiplication binds tighter than addition: `x + y * z` reads as
/// `x + (y * z)`.
pub proof fn lemma_product_binds_tighter(st: Stream, at: At)
    requires
        0 <= at.index,
        at.index + 5 == st.lexemes.len(),
        is_leaf_kind(st.lexemes[at.index].kind),
        st.lexemes[at.index + 1].kind == TokenKind::Plus,
        is_leaf_kind(st.lexemes[at.index + 2].kind),
        st.lexemes[at.index + 3].kind == TokenKind::Multiply,
        is_leaf_kind(st.lexemes[at.index + 4].kind),
    ensures
        ({
            expression(st, at, 0) matches Ok((t, _)) && t == Tree::Infix {
            operator: Operator::Plus,
            lhs: Box::new(leaf(st, st.lexemes[at.index])),
            rhs: Box::new(
                Tree::Infix {
                    operator: Operator::Multiply,
                    lhs: Box::new(leaf(st, st.lexemes[at.index + 2])),
                    rhs: Box::new(leaf(st, st.lexemes[at.index + 4])),
                },
            ),
        }
        }),
{
    lemma_two_operators(st, at);
}

/// Only a bare name can be called: where the expression read so far is
/// anything else and a call's `(` comes next, within reach of the binding
/// power, the parse fails.
pub proof fn lemma_call_needs_a_name(st: Stream, at: At, lead: Lexeme, lhs: Tree, min: int)
    requires
        (lookahead(st, at) matches Ok(t) && t.kind == TokenKind::LeftParenthesis),
        min <= 13,
        (!(lhs is Identifier)),
    ensures
        (extend(st, at, lead, lhs, min) is Err),
{
}

} // verus!
