//! The meaning of a bind, as spec functions.
//!
//! A bind threads a state through the syntax tree in traversal order:
//! the stack of scope maps and the diagnostics reported so far. Each
//! function here gives, for one kind of syntax node, the semantic
//! value it binds to and the state after it, following the typing
//! rules of the language.
use vstd::prelude::*;

use crate::diag::DiagnosticView;
use crate::operators::op_result;
use crate::scope::{
    builtin_names, declare_once, flatten_functions, stack_lookup, with_builtin_types, SymbolView,
};
use crate::syntax::{
    infix_op_name, span_of, BlockBody, CallExpression, Constant, DeclarationExpression,
    Expression, FunctionExpression, IdentifierExpression, IfElseExpression, IndexExpression,
    InfixOp, InfixOperatorExpression, LiteralExpression, LoopExpression, LoopKind,
    PrefixExpression, PrefixOp, PrintExpression, TypeRef, TypedId, VarStyle,
};
use crate::text::{enclosing_spec, name_of, Ident, Span};
use crate::tree::{sem, sem_error, SemExpr, SemKind, VarDeclView};
use crate::types::{typ_name, BuiltinType, Typ};

verus! {

/// The state a bind threads through the tree
pub struct BindState {
    /// The scope maps, outermost first
    pub scopes: Seq<Map<Ident, SymbolView>>,
    /// The diagnostics reported so far, in order
    pub diags: Seq<DiagnosticView>,
}

/// The state with one more diagnostic reported
pub open spec fn report(st: BindState, message: Seq<char>, span: Span) -> BindState {
    BindState { scopes: st.scopes, diags: st.diags.push(DiagnosticView { message, span }) }
}

/// The state with `id` declared as `sym` in the innermost scope,
/// unless that scope already declares it
pub open spec fn declare_in(st: BindState, id: Ident, sym: SymbolView) -> BindState {
    BindState {
        scopes: st.scopes.update(
            st.scopes.len() - 1,
            declare_once(st.scopes.last(), id, sym),
        ),
        diags: st.diags,
    }
}

/// A type, or `Unknown` where none is known
pub open spec fn or_unknown(t: Option<Typ>) -> Typ {
    match t {
        Some(t) => t,
        None => Typ::Unknown,
    }
}

/// The builtin type of a constant
pub open spec fn constant_typ(c: Constant) -> Typ {
    match c {
        Constant::Bool(_) => Typ::Builtin(BuiltinType::Bool),
        Constant::Number(_) => Typ::Builtin(BuiltinType::Number),
        Constant::String(_) => Typ::Builtin(BuiltinType::String),
    }
}

// The messages of the diagnostics a bind reports.

/// An identifier with no symbol in scope
pub open spec fn msg_cant_find(name: Seq<char>) -> Seq<char> {
    "Can't find '"@ + name + "' in this scope"@
}

pub open spec fn msg_invalid_operator(op: InfixOp) -> Seq<char> {
    "Use of operator `"@ + infix_op_name(op) + "` with invalid arguments"@
}

pub open spec fn msg_not_mutable(name: Seq<char>) -> Seq<char> {
    "Can't assign to '"@ + name + "', it isn't mutable"@
}

pub open spec fn msg_assign_mismatch(name: Seq<char>) -> Seq<char> {
    "Type mismatch in assignment to '"@ + name + "' "@
}

pub open spec fn msg_not_variable(name: Seq<char>) -> Seq<char> {
    "Can't write to '"@ + name + "' as it isn't a variable."@
}

pub open spec fn msg_cant_assign(name: Seq<char>) -> Seq<char> {
    "Can't assign to '"@ + name + "'"@
}

pub open spec fn msg_invalid_argument(expected: Seq<char>, found: Seq<char>) -> Seq<char> {
    "Invalid argument. Expected '"@ + expected + "' but found '"@ + found + "'"@
}

pub open spec fn msg_condition(found: Seq<char>) -> Seq<char> {
    "Condition expression should be 'Bool' but is '"@ + found + "'"@
}

pub open spec fn msg_if_mismatch(a: Seq<char>, b: Seq<char>) -> Seq<char> {
    "If and else have mismatched types. '"@ + a + "' and '"@ + b + "'"@
}

pub open spec fn msg_param_missing_type(name: Seq<char>) -> Seq<char> {
    "Parameter '"@ + name + "' missing type"@
}

pub open spec fn msg_duplicate_param(name: Seq<char>) -> Seq<char> {
    "Duplicate function parameter '"@ + name + "'"@
}

pub open spec fn msg_initialiser_mismatch(name: Seq<char>) -> Seq<char> {
    "Initialiser doesn't match declaration type for '"@ + name + "'"@
}

/// A type reference that the binder can resolve: `()` or a name.
/// Array and tuple types, and missing types, stop a bind outright.
pub open spec fn type_ref_supported(t: TypeRef) -> bool {
    t is Unit || t is Simple
}

/// Every annotation among the parameters is supported.
pub open spec fn params_supported(ps: Seq<TypedId>) -> bool {
    forall|i: int|
        0 <= i < ps.len() ==> ((#[trigger] ps[i]).typ matches Some(t) ==> type_ref_supported(t))
}

/// Every type reference the binder resolves in `e` is supported.
pub open spec fn types_supported(e: Expression) -> bool
    decreases e,
{
    match e {
        Expression::Identifier(_) => true,
        Expression::Literal(_) => true,
        Expression::Prefix(p) => types_supported(*p.inner),
        Expression::Infix(i) => types_supported(*i.left) && types_supported(*i.right),
        Expression::Call(c) => types_supported(*c.callee) && types_supported_list(
            c.arguments,
            c.arguments.len() as nat,
        ),
        Expression::Index(i) => types_supported(*i.indexee) && types_supported(*i.index),
        Expression::IfThenElse(i) => types_supported(*i.cond) && types_supported(*i.if_true)
            && types_supported(*i.if_false),
        Expression::Function(f) => params_supported(f.params@) && type_ref_supported(
            f.return_type,
        ) && types_supported(*f.body.contents),
        Expression::Loop(l) => types_supported(*l.condition) && types_supported(
            *l.body.contents,
        ),
        Expression::Sequence(v) => types_supported_list(v, v.len() as nat),
        Expression::Print(p) => types_supported(*p.inner),
        Expression::Declaration(d) => (d.id.typ is None || type_ref_supported(d.id.typ->0))
            && types_supported(*d.initialiser),
        Expression::Grouping(g) => types_supported(*g.inner),
    }
}

/// The first `k` expressions of `v` have supported type references.
pub open spec fn types_supported_list(v: Vec<Expression>, k: nat) -> bool
    decreases v, k,
{
    if k == 0 || k > v.len() {
        true
    } else {
        types_supported_list(v, (k - 1) as nat) && types_supported(v[k - 1])
    }
}

/// Resolving a type reference
pub open spec fn bind_type_spec(st: BindState, t: TypeRef) -> (Typ, BindState) {
    match t {
        TypeRef::Simple(id, span) => match stack_lookup(st.scopes, id) {
            Some(SymbolView::Type(ty)) => (ty, st),
            _ => (Typ::Error, report(st, "Reference to undefined type"@, span)),
        },
        TypeRef::Unit(_) => (Typ::Unit, st),
        _ => (Typ::Error, st),
    }
}

/// The parameter types of the first `k` parameters, as a function
/// declaration records them: a missing annotation gives `Error`.
pub open spec fn param_types_spec(st: BindState, ps: Seq<TypedId>, k: nat) -> (Seq<Typ>, BindState)
    decreases k,
{
    if k == 0 || k > ps.len() {
        (Seq::empty(), st)
    } else {
        let (tys, st1) = param_types_spec(st, ps, (k - 1) as nat);
        match ps[k - 1].typ {
            Some(t) => {
                let (ty, st2) = bind_type_spec(st1, t);
                (tys.push(ty), st2)
            },
            None => (tys.push(Typ::Error), st1),
        }
    }
}

/// Declaring a function: its signature is entered in the innermost scope
pub open spec fn declare_function_spec(st: BindState, f: FunctionExpression) -> BindState {
    let (ptys, st1) = param_types_spec(st, f.params@, f.params.len() as nat);
    let (ret, st2) = bind_type_spec(st1, f.return_type);
    declare_in(st2, f.identifier, SymbolView::Function(ptys, ret))
}

/// The declare pass: functions at the top level of `e`, through
/// sequences and groupings but not into any body, are declared.
pub open spec fn declare_spec(st: BindState, e: Expression) -> BindState
    decreases e,
{
    match e {
        Expression::Function(f) => declare_function_spec(st, f),
        Expression::Sequence(v) => declare_list_spec(st, v, v.len() as nat),
        Expression::Grouping(g) => declare_spec(st, *g.inner),
        _ => st,
    }
}

/// The declare pass over the first `k` expressions of a sequence
pub open spec fn declare_list_spec(st: BindState, v: Vec<Expression>, k: nat) -> BindState
    decreases v, k,
{
    if k == 0 || k > v.len() {
        st
    } else {
        declare_spec(declare_list_spec(st, v, (k - 1) as nat), v[k - 1])
    }
}

/// Binding an expression
pub open spec fn bind_spec(src: Seq<Seq<char>>, st: BindState, e: Expression) -> (
    SemExpr,
    BindState,
)
    decreases e,
{
    match e {
        Expression::Identifier(i) => bind_identifier_spec(src, st, i),
        Expression::Literal(l) => bind_literal_spec(st, l),
        Expression::Prefix(p) => bind_prefix_spec(src, st, p),
        Expression::Infix(i) => bind_infix_spec(src, st, i),
        Expression::Call(c) => bind_call_spec(src, st, c),
        Expression::Index(i) => bind_index_spec(src, st, i),
        Expression::IfThenElse(i) => bind_if_else_spec(src, st, i),
        Expression::Function(f) => bind_function_spec(src, st, f),
        Expression::Loop(l) => bind_loop_spec(src, st, l),
        Expression::Sequence(v) => bind_sequence_spec(src, st, v),
        Expression::Print(p) => bind_print_spec(src, st, p),
        Expression::Declaration(d) => bind_declaration_spec(src, st, d),
        Expression::Grouping(g) => bind_spec(src, st, *g.inner),
    }
}

/// Binding a literal: its type is given by the kind of constant
pub open spec fn bind_literal_spec(st: BindState, l: LiteralExpression) -> (SemExpr, BindState) {
    (sem(SemKind::Literal(l.value@), Some(constant_typ(l.value))), st)
}

/// Binding a prefix operation: the operand's type passes through
pub open spec fn bind_prefix_spec(src: Seq<Seq<char>>, st: BindState, p: PrefixExpression) -> (
    SemExpr,
    BindState,
)
    decreases p,
{
    let (x, st1) = bind_spec(src, st, *p.inner);
    (sem(SemKind::Prefix(p.op, Box::new(x)), x.typ), st1)
}

/// Binding an index expression: both operands are bound, and the
/// index itself is reported as unsupported
pub open spec fn bind_index_spec(src: Seq<Seq<char>>, st: BindState, i: IndexExpression) -> (
    SemExpr,
    BindState,
)
    decreases i,
{
    let (_a, st1) = bind_spec(src, st, *i.indexee);
    let (_b, st2) = bind_spec(src, st1, *i.index);
    (
        sem_error(),
        report(
            st2,
            "Index expressions are not yet supported"@,
            enclosing_spec(i.open_bracket, i.close_bracket),
        ),
    )
}

/// Binding `print E`: the printed expression's type passes through
pub open spec fn bind_print_spec(src: Seq<Seq<char>>, st: BindState, p: PrintExpression) -> (
    SemExpr,
    BindState,
)
    decreases p,
{
    let (x, st1) = bind_spec(src, st, *p.inner);
    (sem(SemKind::Print(Box::new(x)), x.typ), st1)
}

/// Binding a sequence in the current scope
pub open spec fn bind_sequence_spec(src: Seq<Seq<char>>, st: BindState, v: Vec<Expression>) -> (
    SemExpr,
    BindState,
)
    decreases v,
{
    let (xs, st1) = bind_list_spec(src, st, v, v.len() as nat);
    (sem(SemKind::Sequence(xs), sequence_typ(xs)), st1)
}

/// Taking the diagnostics: they are handed out and none are left
pub open spec fn take_spec(st: BindState) -> (Seq<DiagnosticView>, BindState) {
    (st.diags, BindState { scopes: st.scopes, diags: Seq::empty() })
}

/// The scope stack has the same depth and the same scopes outside the
/// innermost one.
pub open spec fn keeps_outer(a: BindState, b: BindState) -> bool {
    a.scopes.len() == b.scopes.len() && a.scopes.drop_last() == b.scopes.drop_last()
}

/// Each of the first `k` expressions of the list has supported type
/// references.
pub proof fn lemma_supported_list(v: Vec<Expression>, k: nat)
    requires
        k <= v.len(),
        types_supported_list(v, k),
    ensures
        forall|j: int| 0 <= j < k ==> types_supported(#[trigger] v@[j]),
    decreases k,
{
    if k > 0 {
        lemma_supported_list(v, (k - 1) as nat);
    }
}

/// The type of a sequence: that of its last element, or unit when it
/// is empty
pub open spec fn sequence_typ(xs: Seq<SemExpr>) -> Option<Typ> {
    if xs.len() == 0 {
        Some(Typ::Unit)
    } else {
        xs.last().typ
    }
}

/// Binding the first `k` expressions of a sequence, in order, in the
/// current scope
pub open spec fn bind_list_spec(
    src: Seq<Seq<char>>,
    st: BindState,
    v: Vec<Expression>,
    k: nat,
) -> (Seq<SemExpr>, BindState)
    decreases v, k,
{
    if k == 0 || k > v.len() {
        (Seq::empty(), st)
    } else {
        let (xs, st1) = bind_list_spec(src, st, v, (k - 1) as nat);
        let (x, st2) = bind_spec(src, st1, v[k - 1]);
        (xs.push(x), st2)
    }
}

/// Binding a reference to an identifier
pub open spec fn bind_identifier_spec(
    src: Seq<Seq<char>>,
    st: BindState,
    i: IdentifierExpression,
) -> (SemExpr, BindState) {
    let name = name_of(src, i.ident);
    match stack_lookup(st.scopes, i.ident) {
        Some(sym) => {
            let typ = match sym {
                SymbolView::Variable(_, t) => Some(t),
                SymbolView::Function(..) => Some(Typ::Function(i.ident)),
                SymbolView::Type(_) => None,
            };
            (sem(SemKind::Identifier(name), typ), st)
        },
        None => (sem_error(), report(st, msg_cant_find(name), i.span)),
    }
}

/// Binding an infix expression, assignment included
pub open spec fn bind_infix_spec(
    src: Seq<Seq<char>>,
    st: BindState,
    i: InfixOperatorExpression,
) -> (SemExpr, BindState)
    decreases i, 1nat,
{
    if i.op == InfixOp::Assign {
        match *i.left {
            Expression::Identifier(id) => bind_assign_spec(src, st, id, i),
            _ => (
                sem_error(),
                report(
                    st,
                    "left hand side of an assignment must be an identifier"@,
                    span_of(*i.left),
                ),
            ),
        }
    } else {
        let (l, st1) = bind_spec(src, st, *i.left);
        let (r, st2) = bind_spec(src, st1, *i.right);
        match op_result(i.op, or_unknown(l.typ), or_unknown(r.typ)) {
            Some(t) => (sem(SemKind::Infix(Box::new(l), i.op, Box::new(r)), Some(t)), st2),
            None => (
                sem_error(),
                report(
                    st2,
                    msg_invalid_operator(i.op),
                    enclosing_spec(span_of(*i.left), span_of(*i.right)),
                ),
            ),
        }
    }
}

/// Binding an assignment of the right hand side of `i` to `id`
pub open spec fn bind_assign_spec(
    src: Seq<Seq<char>>,
    st: BindState,
    id: IdentifierExpression,
    i: InfixOperatorExpression,
) -> (SemExpr, BindState)
    decreases i, 0nat,
{
    let name = name_of(src, id.ident);
    match stack_lookup(st.scopes, id.ident) {
        Some(SymbolView::Variable(style, typ)) => {
            let st1 = if style != VarStyle::Mutable {
                report(st, msg_not_mutable(name), i.op_span)
            } else {
                st
            };
            let (r, st2) = bind_spec(src, st1, *i.right);
            let st3 = if r.typ matches Some(t) && t != typ {
                report(st2, msg_assign_mismatch(name), i.op_span)
            } else {
                st2
            };
            (sem(SemKind::Assignment(name, Box::new(r)), Some(typ)), st3)
        },
        Some(_) => (sem_error(), report(st, msg_not_variable(name), id.span)),
        None => (sem_error(), report(st, msg_cant_assign(name), id.span)),
    }
}

/// Binding a call
pub open spec fn bind_call_spec(src: Seq<Seq<char>>, st: BindState, c: CallExpression) -> (
    SemExpr,
    BindState,
)
    decreases c,
{
    let (callee, st1) = bind_spec(src, st, *c.callee);
    let not_function = (
        sem_error(),
        report(st1, "Called item is not a function"@, span_of(*c.callee)),
    );
    match callee.typ {
        Some(Typ::Function(id)) => match stack_lookup(st1.scopes, id) {
            Some(SymbolView::Function(params, ret)) => {
                let np = params.len();
                let na = c.arguments.len() as nat;
                let st2 = if na < np {
                    report(
                        st1,
                        "Too few arguments to call"@,
                        enclosing_spec(c.open_paren, c.close_paren),
                    )
                } else {
                    st1
                };
                let st3 = if na > np {
                    report(
                        st2,
                        "Too many arguments to call"@,
                        Span { start: span_of(c.arguments[np as int]).start, end: c.close_paren.start },
                    )
                } else {
                    st2
                };
                let k = if na < np {
                    na
                } else {
                    np
                };
                let (args, st4) = bind_args_spec(src, st3, c, params, k);
                (sem(SemKind::Call(Box::new(callee), args), Some(ret)), st4)
            },
            _ => not_function,
        },
        _ => not_function,
    }
}

/// Binding the first `k` arguments of a call, each checked against the
/// parameter type at its position
pub open spec fn bind_args_spec(
    src: Seq<Seq<char>>,
    st: BindState,
    c: CallExpression,
    params: Seq<Typ>,
    k: nat,
) -> (Seq<SemExpr>, BindState)
    decreases c, k,
{
    if k == 0 || k > c.arguments.len() || k > params.len() {
        (Seq::empty(), st)
    } else {
        let (xs, st1) = bind_args_spec(src, st, c, params, (k - 1) as nat);
        let (a, st2) = bind_spec(src, st1, c.arguments[k - 1]);
        let expected = params[k - 1];
        let st3 = if a.typ != Some(expected) {
            report(
                st2,
                msg_invalid_argument(typ_name(expected), typ_name(or_unknown(a.typ))),
                span_of(c.arguments[k - 1]),
            )
        } else {
            st2
        };
        (xs.push(a), st3)
    }
}

/// Binding `if C then T else F`
pub open spec fn bind_if_else_spec(src: Seq<Seq<char>>, st: BindState, i: IfElseExpression) -> (
    SemExpr,
    BindState,
)
    decreases i,
{
    let (c, st1) = bind_spec(src, st, *i.cond);
    let (t, st2) = bind_spec(src, st1, *i.if_true);
    let (f, st3) = bind_spec(src, st2, *i.if_false);
    let cond_ty = or_unknown(c.typ);
    let st4 = if cond_ty != Typ::Builtin(BuiltinType::Bool) {
        report(st3, msg_condition(typ_name(cond_ty)), span_of(*i.cond))
    } else {
        st3
    };
    let true_ty = or_unknown(t.typ);
    let false_ty = or_unknown(f.typ);
    let st5 = if true_ty != false_ty {
        report(
            st4,
            msg_if_mismatch(typ_name(true_ty), typ_name(false_ty)),
            enclosing_spec(span_of(*i.if_true), span_of(*i.if_false)),
        )
    } else {
        st4
    };
    (sem(SemKind::IfThenElse(Box::new(c), Box::new(t), Box::new(f)), t.typ), st5)
}

/// Binding the first `k` parameters of a function: their declarations,
/// the parent state (which takes the diagnostics), the function's base
/// scope, and the names seen so far
pub open spec fn bind_params_spec(
    src: Seq<Seq<char>>,
    st: BindState,
    ps: Seq<TypedId>,
    base: Map<Ident, SymbolView>,
    k: nat,
) -> (Seq<VarDeclView>, BindState, Map<Ident, SymbolView>, Seq<Ident>)
    decreases k,
{
    if k == 0 || k > ps.len() {
        (Seq::empty(), st, base, Seq::empty())
    } else {
        let (decls, st1, base1, seen) = bind_params_spec(src, st, ps, base, (k - 1) as nat);
        let p = ps[k - 1];
        let name = name_of(src, p.id);
        let (typ, st2) = match p.typ {
            Some(t) => bind_type_spec(st1, t),
            None => (Typ::Error, report(st1, msg_param_missing_type(name), p.id_span)),
        };
        let st3 = if seen.contains(p.id) {
            report(st2, msg_duplicate_param(name), p.id_span)
        } else {
            st2
        };
        (
            decls.push(VarDeclView { ident: name, ty: Some(typ) }),
            st3,
            declare_once(base1, p.id, SymbolView::Variable(VarStyle::Mutable, typ)),
            seen.push(p.id),
        )
    }
}

/// Binding a function definition: the body is bound by a binder of its
/// own, whose base scope holds the visible function declarations and
/// the parameters; its diagnostics follow the parent's.
pub open spec fn bind_function_spec(
    src: Seq<Seq<char>>,
    st: BindState,
    f: FunctionExpression,
) -> (SemExpr, BindState)
    decreases f,
{
    let (params, st1, base, _seen) = bind_params_spec(
        src,
        st,
        f.params@,
        flatten_functions(st.scopes),
        f.params.len() as nat,
    );
    let child = BindState { scopes: seq![base], diags: Seq::empty() };
    let (body, child1) = bind_block_spec(src, child, f.body);
    let (ret, st2) = bind_type_spec(st1, f.return_type);
    (
        sem(
            SemKind::Function(name_of(src, f.identifier), ret, params, Box::new(body)),
            Some(Typ::Error),
        ),
        BindState { scopes: st2.scopes, diags: st2.diags + child1.diags },
    )
}

/// Binding a block: in a new innermost scope, the functions of its
/// contents are declared and then the contents are bound; the scope is
/// dropped afterwards
pub open spec fn bind_block_spec(src: Seq<Seq<char>>, st: BindState, b: BlockBody) -> (
    SemExpr,
    BindState,
)
    decreases b,
{
    let inner = BindState { scopes: st.scopes.push(Map::empty()), diags: st.diags };
    let declared = declare_spec(inner, *b.contents);
    let (x, st1) = bind_spec(src, declared, *b.contents);
    (x, BindState { scopes: st1.scopes.drop_last(), diags: st1.diags })
}

/// Binding a loop; `until C` binds as `while not C`
pub open spec fn bind_loop_spec(src: Seq<Seq<char>>, st: BindState, l: LoopExpression) -> (
    SemExpr,
    BindState,
)
    decreases l,
{
    let (c, st1) = bind_spec(src, st, *l.condition);
    let cond = if l.kind == LoopKind::Until {
        sem(SemKind::Prefix(PrefixOp::Not, Box::new(c)), c.typ)
    } else {
        c
    };
    let (body, st2) = bind_block_spec(src, st1, l.body);
    (sem(SemKind::Loop(Box::new(cond), Box::new(body)), Some(Typ::Unit)), st2)
}

/// Binding a variable declaration: the initialiser is bound before the
/// variable is declared, so it cannot see it
pub open spec fn bind_declaration_spec(
    src: Seq<Seq<char>>,
    st: BindState,
    d: DeclarationExpression,
) -> (SemExpr, BindState)
    decreases d,
{
    let name = name_of(src, d.id.id);
    let (decl_type, st1) = match d.id.typ {
        Some(t) => bind_type_spec(st, t),
        None => (Typ::Unknown, st),
    };
    let (init, st2) = bind_spec(src, st1, *d.initialiser);
    let (ty, st3) = if decl_type != Typ::Unknown {
        if init.typ matches Some(t) && t != decl_type {
            (Some(Typ::Error), report(st2, msg_initialiser_mismatch(name), d.id.id_span))
        } else {
            (Some(decl_type), st2)
        }
    } else {
        (init.typ, st2)
    };
    let st4 = declare_in(st3, d.id.id, SymbolView::Variable(d.style, or_unknown(ty)));
    (
        sem(
            SemKind::Declaration(
                VarDeclView { ident: name, ty },
                d.style == VarStyle::Mutable,
                Box::new(init),
            ),
            ty,
        ),
        st4,
    )
}

/// Binding a whole tree: the builtin types are declared in the
/// innermost scope, then the declare pass and the bind pass run.
/// Gives the semantic tree, the state after it, and the interned names.
pub open spec fn bind_tree_spec(names: Seq<Seq<char>>, st: BindState, tree: Expression) -> (
    SemExpr,
    BindState,
    Seq<Seq<char>>,
) {
    let ids = builtin_names(names);
    let st1 = BindState {
        scopes: st.scopes.update(
            st.scopes.len() - 1,
            with_builtin_types(st.scopes.last(), ids),
        ),
        diags: st.diags,
    };
    let st2 = declare_spec(st1, tree);
    let (r, st3) = bind_spec(ids.0, st2, tree);
    (r, st3, ids.0)
}

} // verus!
