//! The syntax tree handed to the binder by the parser.
//!
//! Every node carries the spans of its tokens, so that a diagnostic can
//! point at the part of the source it concerns.
use vstd::prelude::*;
use vstd::string::*;

use crate::text::{enclosing_spec, Ident, Span};

verus! {

/// Constant values that literals hold
#[derive(PartialEq, Debug)]
pub enum Constant {
    Bool(bool),
    Number(i64),
    String(String),
}

/// The value a constant holds
pub enum ConstantView {
    Bool(bool),
    Number(i64),
    String(Seq<char>),
}

impl View for Constant {
    type V = ConstantView;

    open spec fn view(&self) -> ConstantView {
        match self {
            Constant::Bool(b) => ConstantView::Bool(*b),
            Constant::Number(n) => ConstantView::Number(*n),
            Constant::String(s) => ConstantView::String(s@),
        }
    }
}

impl Constant {
    /// A copy of this constant
    pub fn duplicate(&self) -> (r: Constant)
        ensures
            r@ == self@,
    {
        match self {
            Constant::Bool(b) => Constant::Bool(*b),
            Constant::Number(n) => Constant::Number(*n),
            Constant::String(s) => Constant::String(s.clone()),
        }
    }
}

/// Prefix operators
#[derive(Clone, Copy, PartialEq, Eq, Structural, Debug)]
pub enum PrefixOp {
    Negate,
    Not,
}

/// Infix operators
#[derive(Clone, Copy, PartialEq, Eq, Structural, Debug)]
pub enum InfixOp {
    Assign,
    Add,
    Sub,
    Mul,
    Div,
    Eq,
    NotEq,
    Lt,
    Gt,
}

/// The name of an infix operator, as diagnostics show it
pub open spec fn infix_op_name(op: InfixOp) -> Seq<char> {
    match op {
        InfixOp::Assign => "Assign"@,
        InfixOp::Add => "Add"@,
        InfixOp::Sub => "Sub"@,
        InfixOp::Mul => "Mul"@,
        InfixOp::Div => "Div"@,
        InfixOp::Eq => "Eq"@,
        InfixOp::NotEq => "NotEq"@,
        InfixOp::Lt => "Lt"@,
        InfixOp::Gt => "Gt"@,
    }
}

impl InfixOp {
    /// Name of the operator
    pub fn name(&self) -> (r: String)
        ensures
            r@ == infix_op_name(*self),
    {
        match self {
            InfixOp::Assign => String::from_str("Assign"),
            InfixOp::Add => String::from_str("Add"),
            InfixOp::Sub => String::from_str("Sub"),
            InfixOp::Mul => String::from_str("Mul"),
            InfixOp::Div => String::from_str("Div"),
            InfixOp::Eq => String::from_str("Eq"),
            InfixOp::NotEq => String::from_str("NotEq"),
            InfixOp::Lt => String::from_str("Lt"),
            InfixOp::Gt => String::from_str("Gt"),
        }
    }
}

/// Mutability of a declared variable
#[derive(Clone, Copy, PartialEq, Eq, Structural, Debug)]
pub enum VarStyle {
    Mutable,
    Immutable,
}

/// The keyword that introduced a loop
#[derive(Clone, Copy, PartialEq, Eq, Structural, Debug)]
pub enum LoopKind {
    /// `while C`: run while the condition holds
    While,
    /// `until C`: run while the condition does not hold
    Until,
}

/// A reference to a type in a type annotation
#[derive(Clone, Copy, PartialEq, Eq, Structural, Debug)]
pub enum TypeRef {
    /// `()`
    Unit(Span),
    /// A type referred to by name
    Simple(Ident, Span),
    /// `[T]`
    Array(Span),
    /// `(T, U)`
    Tuple(Span),
    /// A type that the parser expected but did not find
    Missing,
}

/// An identifier with an optional type annotation
#[derive(Clone, Copy, PartialEq, Eq, Structural, Debug)]
pub struct TypedId {
    pub id: Ident,
    pub id_span: Span,
    pub typ: Option<TypeRef>,
}

/// Reference to an identifier
#[derive(Clone, Copy, PartialEq, Eq, Structural, Debug)]
pub struct IdentifierExpression {
    pub ident: Ident,
    pub span: Span,
}

/// A literal constant
#[derive(PartialEq, Debug)]
pub struct LiteralExpression {
    pub value: Constant,
    pub span: Span,
}

/// A prefix operator applied to an operand
#[derive(PartialEq, Debug)]
pub struct PrefixExpression {
    pub op: PrefixOp,
    pub op_span: Span,
    pub inner: Box<Expression>,
}

/// An infix operator applied to two operands
#[derive(PartialEq, Debug)]
pub struct InfixOperatorExpression {
    pub left: Box<Expression>,
    pub op: InfixOp,
    pub op_span: Span,
    pub right: Box<Expression>,
}

/// A call of a function with arguments
#[derive(PartialEq, Debug)]
pub struct CallExpression {
    pub callee: Box<Expression>,
    pub open_paren: Span,
    pub arguments: Vec<Expression>,
    pub close_paren: Span,
}

/// An index into a value
#[derive(PartialEq, Debug)]
pub struct IndexExpression {
    pub indexee: Box<Expression>,
    pub open_bracket: Span,
    pub index: Box<Expression>,
    pub close_bracket: Span,
}

/// `if C then T else F`
#[derive(PartialEq, Debug)]
pub struct IfElseExpression {
    pub if_span: Span,
    pub cond: Box<Expression>,
    pub if_true: Box<Expression>,
    pub if_false: Box<Expression>,
}

/// The body of a function or a loop, bound in a scope of its own
#[derive(PartialEq, Debug)]
pub struct BlockBody {
    pub contents: Box<Expression>,
    pub close: Span,
}

/// A function definition
#[derive(PartialEq, Debug)]
pub struct FunctionExpression {
    pub fn_span: Span,
    pub identifier: Ident,
    pub params: Vec<TypedId>,
    pub return_type: TypeRef,
    pub body: BlockBody,
}

/// A `while` or `until` loop
#[derive(PartialEq, Debug)]
pub struct LoopExpression {
    pub kind: LoopKind,
    pub kw_span: Span,
    pub condition: Box<Expression>,
    pub body: BlockBody,
}

/// `print E`
#[derive(PartialEq, Debug)]
pub struct PrintExpression {
    pub print_span: Span,
    pub inner: Box<Expression>,
}

/// `let x = E` or `var x = E`, with an optional annotation on `x`
#[derive(PartialEq, Debug)]
pub struct DeclarationExpression {
    pub kw_span: Span,
    pub id: TypedId,
    pub style: VarStyle,
    pub initialiser: Box<Expression>,
}

/// A parenthesised expression
#[derive(PartialEq, Debug)]
pub struct GroupingExpression {
    pub open: Span,
    pub inner: Box<Expression>,
    pub close: Span,
}

/// A syntax expression
#[derive(PartialEq, Debug)]
pub enum Expression {
    Identifier(IdentifierExpression),
    Literal(LiteralExpression),
    Prefix(PrefixExpression),
    Infix(InfixOperatorExpression),
    Call(CallExpression),
    Index(IndexExpression),
    IfThenElse(IfElseExpression),
    Function(FunctionExpression),
    Loop(LoopExpression),
    Sequence(Vec<Expression>),
    Print(PrintExpression),
    Declaration(DeclarationExpression),
    Grouping(GroupingExpression),
}

/// The span of source text an expression covers
pub open spec fn span_of(e: Expression) -> Span
    decreases e,
{
    match e {
        Expression::Identifier(i) => i.span,
        Expression::Literal(l) => l.span,
        Expression::Prefix(p) => enclosing_spec(p.op_span, span_of(*p.inner)),
        Expression::Infix(i) => enclosing_spec(span_of(*i.left), span_of(*i.right)),
        Expression::Call(c) => enclosing_spec(span_of(*c.callee), c.close_paren),
        Expression::Index(i) => enclosing_spec(span_of(*i.indexee), i.close_bracket),
        Expression::IfThenElse(i) => enclosing_spec(i.if_span, span_of(*i.if_false)),
        Expression::Function(f) => enclosing_spec(f.fn_span, f.body.close),
        Expression::Loop(l) => enclosing_spec(l.kw_span, l.body.close),
        Expression::Sequence(v) => if v.len() == 0 {
            Span { start: 0, end: 0 }
        } else {
            enclosing_spec(span_of(v[0]), span_of(v[v.len() - 1]))
        },
        Expression::Print(p) => enclosing_spec(p.print_span, span_of(*p.inner)),
        Expression::Declaration(d) => enclosing_spec(d.kw_span, span_of(*d.initialiser)),
        Expression::Grouping(g) => enclosing_spec(g.open, g.close),
    }
}

impl Expression {
    /// The span of source text this expression covers
    pub fn span(&self) -> (r: Span)
        ensures
            r == span_of(*self),
        decreases self,
    {
        match self {
            Expression::Identifier(i) => i.span,
            Expression::Literal(l) => l.span,
            Expression::Prefix(p) => Span::enclosing(p.op_span, p.inner.span()),
            Expression::Infix(i) => Span::enclosing(i.left.span(), i.right.span()),
            Expression::Call(c) => Span::enclosing(c.callee.span(), c.close_paren),
            Expression::Index(i) => Span::enclosing(i.indexee.span(), i.close_bracket),
            Expression::IfThenElse(i) => Span::enclosing(i.if_span, i.if_false.span()),
            Expression::Function(f) => Span::enclosing(f.fn_span, f.body.close),
            Expression::Loop(l) => Span::enclosing(l.kw_span, l.body.close),
            Expression::Sequence(v) => if v.len() == 0 {
                Span::new(0, 0)
            } else {
                Span::enclosing(v[0].span(), v[v.len() - 1].span())
            },
            Expression::Print(p) => Span::enclosing(p.print_span, p.inner.span()),
            Expression::Declaration(d) => Span::enclosing(d.kw_span, d.initialiser.span()),
            Expression::Grouping(g) => Span::enclosing(g.open, g.close),
        }
    }
}

} // verus!
