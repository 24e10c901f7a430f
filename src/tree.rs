//! The semantic tree that a bind produces.
use vstd::prelude::*;

use crate::syntax::{Constant, ConstantView, InfixOp, PrefixOp};
use crate::types::Typ;

verus! {

/// A declared variable or parameter
#[derive(PartialEq, Debug)]
pub struct VarDecl {
    pub ident: String,
    pub ty: Option<Typ>,
}

/// A variable's name and resolved type
pub struct VarDeclView {
    pub ident: Seq<char>,
    pub ty: Option<Typ>,
}

impl View for VarDecl {
    type V = VarDeclView;

    open spec fn view(&self) -> VarDeclView {
        VarDeclView { ident: self.ident@, ty: self.ty }
    }
}

/// A bound function definition
#[derive(PartialEq, Debug)]
pub struct FnDecl {
    pub ident: String,
    pub ret_ty: Typ,
    pub params: Vec<VarDecl>,
    pub body: Box<Expression>,
}

/// The shape of a semantic expression
#[derive(PartialEq, Debug)]
pub enum ExpressionKind {
    /// A construct that could not be bound
    Error,
    Identifier(String),
    Literal(Constant),
    Prefix(PrefixOp, Box<Expression>),
    Infix(Box<Expression>, InfixOp, Box<Expression>),
    Assignment(String, Box<Expression>),
    Call(Box<Expression>, Vec<Expression>),
    Index(Box<Expression>, Box<Expression>),
    IfThenElse(Box<Expression>, Box<Expression>, Box<Expression>),
    Function(FnDecl),
    Loop(Box<Expression>, Box<Expression>),
    Sequence(Vec<Expression>),
    Print(Box<Expression>),
    Declaration(VarDecl, bool, Box<Expression>),
}

/// A semantic expression: its shape and its resolved type, where known
#[derive(PartialEq, Debug)]
pub struct Expression {
    pub kind: ExpressionKind,
    pub typ: Option<Typ>,
}

/// The mathematical value of a semantic expression's shape
pub enum SemKind {
    Error,
    Identifier(Seq<char>),
    Literal(ConstantView),
    Prefix(PrefixOp, Box<SemExpr>),
    Infix(Box<SemExpr>, InfixOp, Box<SemExpr>),
    Assignment(Seq<char>, Box<SemExpr>),
    Call(Box<SemExpr>, Seq<SemExpr>),
    Index(Box<SemExpr>, Box<SemExpr>),
    IfThenElse(Box<SemExpr>, Box<SemExpr>, Box<SemExpr>),
    Function(Seq<char>, Typ, Seq<VarDeclView>, Box<SemExpr>),
    Loop(Box<SemExpr>, Box<SemExpr>),
    Sequence(Seq<SemExpr>),
    Print(Box<SemExpr>),
    Declaration(VarDeclView, bool, Box<SemExpr>),
}

/// The mathematical value of a semantic expression
pub struct SemExpr {
    pub kind: SemKind,
    pub typ: Option<Typ>,
}

/// The single sentinel node for a construct that could not be bound
pub open spec fn sem_error() -> SemExpr {
    SemExpr { kind: SemKind::Error, typ: None }
}

/// A semantic node of the given shape and type
pub open spec fn sem(kind: SemKind, typ: Option<Typ>) -> SemExpr {
    SemExpr { kind, typ }
}

/// The value of a semantic expression
pub open spec fn sem_view(e: Expression) -> SemExpr
    decreases e,
{
    let kind = match e.kind {
        ExpressionKind::Error => SemKind::Error,
        ExpressionKind::Identifier(s) => SemKind::Identifier(s@),
        ExpressionKind::Literal(c) => SemKind::Literal(c@),
        ExpressionKind::Prefix(op, x) => SemKind::Prefix(op, Box::new(sem_view(*x))),
        ExpressionKind::Infix(l, op, r) => SemKind::Infix(
            Box::new(sem_view(*l)),
            op,
            Box::new(sem_view(*r)),
        ),
        ExpressionKind::Assignment(s, x) => SemKind::Assignment(s@, Box::new(sem_view(*x))),
        ExpressionKind::Call(c, args) => SemKind::Call(
            Box::new(sem_view(*c)),
            sem_view_list(args, args.len() as nat),
        ),
        ExpressionKind::Index(a, b) => SemKind::Index(
            Box::new(sem_view(*a)),
            Box::new(sem_view(*b)),
        ),
        ExpressionKind::IfThenElse(c, t, f) => SemKind::IfThenElse(
            Box::new(sem_view(*c)),
            Box::new(sem_view(*t)),
            Box::new(sem_view(*f)),
        ),
        ExpressionKind::Function(d) => SemKind::Function(
            d.ident@,
            d.ret_ty,
            d.params@.map_values(|p: VarDecl| p@),
            Box::new(sem_view(*d.body)),
        ),
        ExpressionKind::Loop(c, b) => SemKind::Loop(Box::new(sem_view(*c)), Box::new(sem_view(*b))),
        ExpressionKind::Sequence(v) => SemKind::Sequence(sem_view_list(v, v.len() as nat)),
        ExpressionKind::Print(x) => SemKind::Print(Box::new(sem_view(*x))),
        ExpressionKind::Declaration(d, m, x) => SemKind::Declaration(
            d@,
            m,
            Box::new(sem_view(*x)),
        ),
    };
    SemExpr { kind, typ: e.typ }
}

/// The values of the first `k` expressions of a list
pub open spec fn sem_view_list(v: Vec<Expression>, k: nat) -> Seq<SemExpr>
    decreases v, k,
{
    if k == 0 || k > v.len() {
        Seq::empty()
    } else {
        sem_view_list(v, (k - 1) as nat).push(sem_view(v[k - 1]))
    }
}

/// The values of a list of expressions
pub open spec fn sem_views(v: Seq<Expression>) -> Seq<SemExpr> {
    v.map_values(|e: Expression| sem_view(e))
}

/// A list's value, counted up to `k`, is the value of its first `k`
/// elements.
pub proof fn lemma_sem_view_list(v: Vec<Expression>, k: nat)
    requires
        k <= v.len(),
    ensures
        sem_view_list(v, k) == sem_views(v@.take(k as int)),
    decreases k,
{
    if k > 0 {
        lemma_sem_view_list(v, (k - 1) as nat);
        assert(v@.take(k as int).drop_last() =~= v@.take(k - 1));
    }
    assert(sem_view_list(v, k) =~= sem_views(v@.take(k as int)));
}

impl View for Expression {
    type V = SemExpr;

    open spec fn view(&self) -> SemExpr {
        sem_view(*self)
    }
}

impl Expression {
    /// Create an expression of the given shape and type
    pub fn new(kind: ExpressionKind, typ: Option<Typ>) -> (r: Expression)
        ensures
            r.kind == kind,
            r.typ == typ,
    {
        Expression { kind, typ }
    }

    /// The sentinel for a construct that could not be bound
    pub fn error() -> (r: Expression)
        ensures
            r@ == sem_error(),
    {
        Expression { kind: ExpressionKind::Error, typ: None }
    }
}

} // verus!
