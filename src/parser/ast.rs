use vstd::prelude::*;

use crate::common::span::Span;

verus! {

/// A value together with the span of source text it was read from.
#[derive(Debug)]
pub struct Spanned<T> {
    pub value: T,
    pub span: Span,
}

impl<T> Spanned<T> {
    pub fn new(value: T, span: Span) -> (r: Spanned<T>)
        ensures
            r.value == value,
            r.span == span,
    {
        Spanned { value, span }
    }
}

/// A prefix or infix operator.
#[derive(Clone, Copy, Debug, PartialEq, Eq, Structural)]
pub enum Operator {
    Plus,
    Minus,
    Multiply,
    Divide,
    Assignment,
    Equal,
    LessThen,
    GreaterThen,
    LessThenEqual,
    GreaterThenEqual,
}

#[derive(Debug)]
#[allow(inconsistent_fields)]
pub enum Expression {
    Infix { operator: Operator, lhs: Box<Node>, rhs: Box<Node> },
    Prefix { operator: Spanned<Operator>, value: Box<Node> },
    Call { name: Spanned<String>, arguments: Spanned<Vec<Node>> },
}

#[derive(Debug)]
pub enum Node {
    Integer(Spanned<String>),
    Float(Spanned<String>),
    Identifier(Spanned<String>),
    Block(Spanned<Vec<Node>>),
    Expression(Expression),
    Statement(Statement),
}

#[derive(Debug)]
pub enum Statement {
    While(Spanned<WhileStatement>),
    If(Spanned<IfStatement>),
    Let(Spanned<LetStatement>),
    Return(Spanned<ReturnStatement>),
}

#[derive(Debug)]
pub struct WhileStatement {
    pub test: Box<Node>,
    pub body: Box<Node>,
}

#[derive(Debug)]
pub struct IfStatement {
    pub test: Box<Node>,
    pub consequent: Box<Node>,
    pub alternative: Option<Box<Node>>,
}

#[derive(Debug)]
pub struct LetStatement {
    pub mutable: bool,
    pub name: String,
    pub value_type: Option<String>,
    pub init: Option<Box<Node>>,
}

#[derive(Debug)]
pub struct ReturnStatement {
    pub value: Option<Box<Node>>,
}

/// One declared parameter of a function: its name and its type's name.
#[derive(Debug)]
pub struct Argument {
    pub name: String,
    pub argument_type: String,
}

#[derive(Debug)]
pub struct Function {
    pub name: String,
    pub arguments: Vec<Argument>,
    pub body: Node,
    pub return_type: Option<String>,
}

/// The root of a syntax tree: the functions of one source, in order.
#[derive(Debug)]
pub struct Program {
    pub path: String,
    pub functions: Vec<Function>,
}

/// The mathematical form of a [`Node`], with texts as character sequences.
pub enum Tree {
    Integer { text: Seq<char>, span: Span },
    Float { text: Seq<char>, span: Span },
    Identifier { text: Seq<char>, span: Span },
    Block { items: Seq<Tree>, span: Span },
    Infix { operator: Operator, lhs: Box<Tree>, rhs: Box<Tree> },
    Prefix { operator: Operator, at: Span, operand: Box<Tree> },
    Call { name: Seq<char>, at: Span, arguments: Seq<Tree>, parens: Span },
    While { test: Box<Tree>, body: Box<Tree>, span: Span },
    If { test: Box<Tree>, consequent: Box<Tree>, alternative: Option<Box<Tree>>, span: Span },
    Let {
        mutable: bool,
        name: Seq<char>,
        value_type: Option<Seq<char>>,
        init: Option<Box<Tree>>,
        span: Span,
    },
    Return { value: Option<Box<Tree>>, span: Span },
}

/// The mathematical form of a [`Function`].
pub struct FunctionTree {
    pub name: Seq<char>,
    pub arguments: Seq<(Seq<char>, Seq<char>)>,
    pub body: Tree,
    pub return_type: Option<Seq<char>>,
}

pub open spec fn text_option(o: Option<String>) -> Option<Seq<char>> {
    match o {
        Some(s) => Some(s@),
        None => None,
    }
}

pub open spec fn node_tree(n: Node) -> Tree
    decreases n,
{
    match n {
        Node::Integer(x) => Tree::Integer { text: x.value@, span: x.span },
        Node::Float(x) => Tree::Float { text: x.value@, span: x.span },
        Node::Identifier(x) => Tree::Identifier { text: x.value@, span: x.span },
        Node::Block(b) => Tree::Block { items: node_trees(b.value@), span: b.span },
        Node::Expression(e) => expression_tree(e),
        Node::Statement(s) => statement_tree(s),
    }
}

pub open spec fn node_trees(v: Seq<Node>) -> Seq<Tree>
    decreases v,
{
    if v.len() == 0 {
        Seq::empty()
    } else {
        node_trees(v.drop_last()).push(node_tree(v.last()))
    }
}

pub open spec fn expression_tree(e: Expression) -> Tree
    decreases e,
{
    match e {
        Expression::Infix { operator, lhs, rhs } => Tree::Infix {
            operator,
            lhs: Box::new(node_tree(*lhs)),
            rhs: Box::new(node_tree(*rhs)),
        },
        Expression::Prefix { operator, value } => Tree::Prefix {
            operator: operator.value,
            at: operator.span,
            operand: Box::new(node_tree(*value)),
        },
        Expression::Call { name, arguments } => Tree::Call {
            name: name.value@,
            at: name.span,
            arguments: node_trees(arguments.value@),
            parens: arguments.span,
        },
    }
}

pub open spec fn statement_tree(s: Statement) -> Tree
    decreases s,
{
    match s {
        Statement::While(w) => Tree::While {
            test: Box::new(node_tree(*w.value.test)),
            body: Box::new(node_tree(*w.value.body)),
            span: w.span,
        },
        Statement::If(i) => Tree::If {
            test: Box::new(node_tree(*i.value.test)),
            consequent: Box::new(node_tree(*i.value.consequent)),
            alternative: match i.value.alternative {
                Some(b) => Some(Box::new(node_tree(*b))),
                None => None,
            },
            span: i.span,
        },
        Statement::Let(l) => Tree::Let {
            mutable: l.value.mutable,
            name: l.value.name@,
            value_type: text_option(l.value.value_type),
            init: match l.value.init {
                Some(b) => Some(Box::new(node_tree(*b))),
                None => None,
            },
            span: l.span,
        },
        Statement::Return(r) => Tree::Return {
            value: match r.value.value {
                Some(b) => Some(Box::new(node_tree(*b))),
                None => None,
            },
            span: r.span,
        },
    }
}

impl View for Function {
    type V = FunctionTree;

    open spec fn view(&self) -> FunctionTree {
        FunctionTree {
            name: self.name@,
            arguments: self.arguments@.map_values(|a: Argument| (a.name@, a.argument_type@)),
            body: node_tree(self.body),
            return_type: text_option(self.return_type),
        }
    }
}

pub proof fn lemma_node_trees_push(v: Seq<Node>, n: Node)
    ensures
        node_trees(v.push(n)) == node_trees(v).push(node_tree(n)),
{
    assert(v.push(n).drop_last() =~= v);
}

impl View for Node {
    type V = Tree;

    open spec fn view(&self) -> Tree {
        node_tree(*self)
    }
}

impl View for Expression {
    type V = Tree;

    open spec fn view(&self) -> Tree {
        expression_tree(*self)
    }
}

impl View for Statement {
    type V = Tree;

    open spec fn view(&self) -> Tree {
        statement_tree(*self)
    }
}

/// The span a tree covers, computed from its parts.
pub open spec fn tree_span(t: Tree) -> Span
    decreases t,
{
    match t {
        Tree::Integer { span, .. } => span,
        Tree::Float { span, .. } => span,
        Tree::Identifier { span, .. } => span,
        Tree::Block { span, .. } => span,
        Tree::Infix { lhs, rhs, .. } => Span { start: tree_span(*lhs).start, end: tree_span(*rhs).end },
        Tree::Prefix { at, operand, .. } => Span { start: at.start, end: tree_span(*operand).end },
        Tree::Call { at, parens, .. } => Span { start: at.start, end: parens.end },
        Tree::While { span, .. } => span,
        Tree::If { span, .. } => span,
        Tree::Let { span, .. } => span,
        Tree::Return { span, .. } => span,
    }
}

/// Recomputes the span a node covers from the spans it holds.
pub trait CalculateSpan {
    spec fn spec_span(&self) -> Span;

    fn calculate_span(&self) -> (r: Span)
        ensures
            r == self.spec_span(),
    ;
}

impl CalculateSpan for Node {
    open spec fn spec_span(&self) -> Span {
        tree_span(self@)
    }

    fn calculate_span(&self) -> (r: Span)
        decreases self,
    {
        match self {
            Node::Integer(integer) => integer.span,
            Node::Float(float) => float.span,
            Node::Identifier(id) => id.span,
            Node::Block(block) => block.span,
            Node::Expression(expression) => expression.calculate_span(),
            Node::Statement(statement) => statement.calculate_span(),
        }
    }
}

impl CalculateSpan for Expression {
    open spec fn spec_span(&self) -> Span {
        tree_span(self@)
    }

    fn calculate_span(&self) -> (r: Span)
        decreases self,
    {
        match self {
            Expression::Infix { lhs, rhs, .. } => Span::new(
                lhs.calculate_span().start,
                rhs.calculate_span().end,
            ),
            Expression::Prefix { operator, value } => Span::new(
                operator.span.start,
                value.calculate_span().end,
            ),
            Expression::Call { name, arguments } => Span::new(name.span.start, arguments.span.end),
        }
    }
}

impl CalculateSpan for Statement {
    open spec fn spec_span(&self) -> Span {
        tree_span(self@)
    }

    fn calculate_span(&self) -> (r: Span) {
        match self {
            Statement::While(while_statement) => while_statement.span,
            Statement::If(if_statement) => if_statement.span,
            Statement::Let(let_statement) => let_statement.span,
            Statement::Return(return_statement) => return_statement.span,
        }
    }
}

} // verus!
