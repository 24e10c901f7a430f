//! Result-based semantic transform.
//!
//! An earlier, simpler conversion of a syntax tree into a semantic
//! one. It keeps no scopes: identifiers and calls are left untyped and
//! nothing is checked but the form of assignments, which fail the whole
//! transform. The `Binder` supersedes it.
use vstd::prelude::*;
use vstd::string::*;

use crate::compile::Error;
use crate::model::constant_typ;
use crate::syntax;
use crate::syntax::{InfixOp, TypeRef, TypedId, VarStyle};
use crate::text::{name_of, SourceText};
use crate::tree::{
    lemma_sem_view_list, sem, sem_views, Expression, ExpressionKind, FnDecl, SemExpr, SemKind,
    VarDecl, VarDeclView,
};
use crate::types::{BuiltinType, Typ};

verus! {

/// The builtin type a type reference names, where it names one
pub open spec fn map_type_spec(src: Seq<Seq<char>>, t: TypeRef) -> Option<Typ> {
    match t {
        TypeRef::Unit(_) => Some(Typ::Unit),
        TypeRef::Simple(id, _) => if name_of(src, id) == "String"@ {
            Some(Typ::Builtin(BuiltinType::String))
        } else if name_of(src, id) == "Bool"@ {
            Some(Typ::Builtin(BuiltinType::Bool))
        } else if name_of(src, id) == "Number"@ {
            Some(Typ::Builtin(BuiltinType::Number))
        } else {
            None
        },
        _ => None,
    }
}

/// An optional annotation maps to a type, where present
pub open spec fn map_anno_spec(src: Seq<Seq<char>>, t: Option<TypeRef>) -> Option<Typ> {
    match t {
        Some(t) => map_type_spec(src, t),
        None => None,
    }
}

/// Every parameter annotation maps to a type.
pub open spec fn params_transformable(src: Seq<Seq<char>>, ps: Seq<TypedId>) -> bool {
    forall|i: int|
        0 <= i < ps.len() ==> ((#[trigger] ps[i]).typ matches Some(t) ==> map_type_spec(
            src,
            t,
        ) is Some)
}

/// Every type annotation in `e` is unit or names a builtin type: the
/// transform cannot represent any other.
pub open spec fn transformable(src: Seq<Seq<char>>, e: syntax::Expression) -> bool
    decreases e,
{
    match e {
        syntax::Expression::Identifier(_) => true,
        syntax::Expression::Literal(_) => true,
        syntax::Expression::Prefix(p) => transformable(src, *p.inner),
        syntax::Expression::Infix(i) => transformable(src, *i.left) && transformable(src, *i.right),
        syntax::Expression::Call(c) => transformable(src, *c.callee) && transformable_list(
            src,
            c.arguments,
            c.arguments.len() as nat,
        ),
        syntax::Expression::Index(i) => transformable(src, *i.indexee) && transformable(
            src,
            *i.index,
        ),
        syntax::Expression::IfThenElse(i) => transformable(src, *i.cond) && transformable(
            src,
            *i.if_true,
        ) && transformable(src, *i.if_false),
        syntax::Expression::Function(f) => params_transformable(src, f.params@) && map_type_spec(
            src,
            f.return_type,
        ) is Some && transformable(src, *f.body.contents),
        syntax::Expression::Loop(l) => transformable(src, *l.condition) && transformable(
            src,
            *l.body.contents,
        ),
        syntax::Expression::Sequence(v) => transformable_list(src, v, v.len() as nat),
        syntax::Expression::Print(p) => transformable(src, *p.inner),
        syntax::Expression::Declaration(d) => (d.id.typ is None || map_type_spec(
            src,
            d.id.typ->0,
        ) is Some) && transformable(src, *d.initialiser),
        syntax::Expression::Grouping(g) => transformable(src, *g.inner),
    }
}

/// The first `k` expressions of `v` are transformable.
pub open spec fn transformable_list(src: Seq<Seq<char>>, v: Vec<syntax::Expression>, k: nat) -> bool
    decreases v, k,
{
    if k == 0 || k > v.len() {
        true
    } else {
        transformable_list(src, v, (k - 1) as nat) && transformable(src, v[k - 1])
    }
}

proof fn lemma_transformable_list(src: Seq<Seq<char>>, v: Vec<syntax::Expression>, k: nat)
    requires
        k <= v.len(),
        transformable_list(src, v, k),
    ensures
        forall|j: int| 0 <= j < k ==> transformable(src, #[trigger] v@[j]),
    decreases k,
{
    if k > 0 {
        lemma_transformable_list(src, v, (k - 1) as nat);
    }
}

/// The message for an assignment to something other than a name
pub open spec fn msg_assign_target() -> Seq<char> {
    "left hand side of an assignment must be an identifier"@
}

/// Transforming an expression: the semantic value, or the message of
/// the first failure in evaluation order
pub open spec fn transform_spec(src: Seq<Seq<char>>, e: syntax::Expression) -> Result<
    SemExpr,
    Seq<char>,
>
    decreases e,
{
    match e {
        syntax::Expression::Identifier(i) => Ok(
            sem(SemKind::Identifier(name_of(src, i.ident)), None),
        ),
        syntax::Expression::Literal(l) => Ok(
            sem(SemKind::Literal(l.value@), Some(constant_typ(l.value))),
        ),
        syntax::Expression::Sequence(v) => match transform_list_spec(src, v, v.len() as nat) {
            Ok(xs) => Ok(
                sem(
                    SemKind::Sequence(xs),
                    if xs.len() == 0 {
                        None
                    } else {
                        xs.last().typ
                    },
                ),
            ),
            Err(m) => Err(m),
        },
        syntax::Expression::Prefix(p) => match transform_spec(src, *p.inner) {
            Ok(x) => Ok(sem(SemKind::Prefix(p.op, Box::new(x)), x.typ)),
            Err(m) => Err(m),
        },
        syntax::Expression::Infix(i) => match transform_spec(src, *i.right) {
            Err(m) => Err(m),
            Ok(r) => if i.op == InfixOp::Assign {
                match *i.left {
                    syntax::Expression::Identifier(id) => Ok(
                        sem(SemKind::Assignment(name_of(src, id.ident), Box::new(r)), None),
                    ),
                    _ => Err(msg_assign_target()),
                }
            } else {
                match transform_spec(src, *i.left) {
                    Err(m) => Err(m),
                    Ok(l) => Ok(
                        sem(
                            SemKind::Infix(Box::new(l), i.op, Box::new(r)),
                            infix_typ(i.op, l.typ, r.typ),
                        ),
                    ),
                }
            },
        },
        syntax::Expression::Index(i) => match transform_spec(src, *i.indexee) {
            Err(m) => Err(m),
            Ok(a) => match transform_spec(src, *i.index) {
                Err(m) => Err(m),
                Ok(b) => Ok(sem(SemKind::Index(Box::new(a), Box::new(b)), None)),
            },
        },
        syntax::Expression::IfThenElse(i) => match transform_spec(src, *i.cond) {
            Err(m) => Err(m),
            Ok(c) => match transform_spec(src, *i.if_true) {
                Err(m) => Err(m),
                Ok(t) => match transform_spec(src, *i.if_false) {
                    Err(m) => Err(m),
                    Ok(f) => Ok(
                        sem(SemKind::IfThenElse(Box::new(c), Box::new(t), Box::new(f)), t.typ),
                    ),
                },
            },
        },
        syntax::Expression::Loop(l) => match transform_spec(src, *l.condition) {
            Err(m) => Err(m),
            Ok(c) => match transform_spec(src, *l.body.contents) {
                Err(m) => Err(m),
                Ok(b) => Ok(sem(SemKind::Loop(Box::new(c), Box::new(b)), Some(Typ::Unit))),
            },
        },
        syntax::Expression::Print(p) => match transform_spec(src, *p.inner) {
            Ok(x) => Ok(sem(SemKind::Print(Box::new(x)), x.typ)),
            Err(m) => Err(m),
        },
        syntax::Expression::Function(f) => match transform_spec(src, *f.body.contents) {
            Err(m) => Err(m),
            Ok(body) => Ok(
                sem(
                    SemKind::Function(
                        name_of(src, f.identifier),
                        map_type_spec(src, f.return_type)->0,
                        param_decls_spec(src, f.params@),
                        Box::new(body),
                    ),
                    None,
                ),
            ),
        },
        syntax::Expression::Declaration(d) => match transform_spec(src, *d.initialiser) {
            Err(m) => Err(m),
            Ok(init) => Ok(
                sem(
                    SemKind::Declaration(
                        VarDeclView { ident: name_of(src, d.id.id), ty: map_anno_spec(src, d.id.typ) },
                        d.style == VarStyle::Mutable,
                        Box::new(init),
                    ),
                    init.typ,
                ),
            ),
        },
        syntax::Expression::Call(c) => match transform_spec(src, *c.callee) {
            Err(m) => Err(m),
            Ok(callee) => match transform_list_spec(src, c.arguments, c.arguments.len() as nat) {
                Err(m) => Err(m),
                Ok(args) => Ok(sem(SemKind::Call(Box::new(callee), args), None)),
            },
        },
        syntax::Expression::Grouping(g) => transform_spec(src, *g.inner),
    }
}

/// The type of an infix expression: comparisons are `Bool`, other
/// operators take the first known operand type
pub open spec fn infix_typ(op: InfixOp, l: Option<Typ>, r: Option<Typ>) -> Option<Typ> {
    if op == InfixOp::Eq || op == InfixOp::NotEq || op == InfixOp::Gt || op == InfixOp::Lt {
        Some(Typ::Builtin(BuiltinType::Bool))
    } else if l is Some {
        l
    } else {
        r
    }
}

/// The declarations of a function's parameters
pub open spec fn param_decls_spec(src: Seq<Seq<char>>, ps: Seq<TypedId>) -> Seq<VarDeclView> {
    ps.map_values(|p: TypedId| VarDeclView { ident: name_of(src, p.id), ty: map_anno_spec(src, p.typ) })
}

/// Transforming the first `k` expressions of a list, in order, up to
/// the first failure
pub open spec fn transform_list_spec(
    src: Seq<Seq<char>>,
    v: Vec<syntax::Expression>,
    k: nat,
) -> Result<Seq<SemExpr>, Seq<char>>
    decreases v, k,
{
    if k == 0 || k > v.len() {
        Ok(Seq::empty())
    } else {
        match transform_list_spec(src, v, (k - 1) as nat) {
            Err(m) => Err(m),
            Ok(xs) => match transform_spec(src, v[k - 1]) {
                Err(m) => Err(m),
                Ok(x) => Ok(xs.push(x)),
            },
        }
    }
}

/// The value of a transform's result
pub open spec fn result_view(r: Result<Expression, Error>) -> Result<SemExpr, Seq<char>> {
    match r {
        Ok(e) => Ok(e@),
        Err(err) => Err(err@),
    }
}

/// The value of a list transform's result
pub open spec fn list_result_view(r: Result<Vec<Expression>, Error>) -> Result<
    Seq<SemExpr>,
    Seq<char>,
> {
    match r {
        Ok(v) => Ok(sem_views(v@)),
        Err(err) => Err(err@),
    }
}

/// Map a type annotation to the builtin type it names
fn map_type(ast_ty: &TypeRef, source: &SourceText) -> (r: Typ)
    requires
        map_type_spec(source@, *ast_ty) is Some,
    ensures
        Some(r) == map_type_spec(source@, *ast_ty),
{
    match ast_ty {
        TypeRef::Unit(_) => Typ::Unit,
        TypeRef::Simple(id, _) => {
            let name = source.interned_value(*id);
            if name == String::from_str("String") {
                Typ::Builtin(BuiltinType::String)
            } else if name == String::from_str("Bool") {
                Typ::Builtin(BuiltinType::Bool)
            } else {
                Typ::Builtin(BuiltinType::Number)
            }
        },
        _ => Typ::Error,
    }
}

/// Map an optional annotation
fn map_anno(anno: &Option<TypeRef>, source: &SourceText) -> (r: Option<Typ>)
    requires
        *anno matches Some(t) ==> map_type_spec(source@, t) is Some,
    ensures
        r == map_anno_spec(source@, *anno),
{
    match anno {
        Some(t) => Some(map_type(t, source)),
        None => None,
    }
}

/// Transform a list of expressions, in order, stopping at the first
/// failure
fn transform_list(exprs: &Vec<syntax::Expression>, source: &SourceText) -> (r: Result<
    Vec<Expression>,
    Error,
>)
    requires
        transformable_list(source@, *exprs, exprs.len() as nat),
    ensures
        list_result_view(r) == transform_list_spec(source@, *exprs, exprs.len() as nat),
    decreases exprs,
{
    proof {
        lemma_transformable_list(source@, *exprs, exprs.len() as nat);
    }
    let mut out: Vec<Expression> = Vec::new();
    let mut i: usize = 0;
    assert(sem_views(out@) =~= Seq::<SemExpr>::empty());
    while i < exprs.len()
        invariant
            i <= exprs.len(),
            forall|j: int| 0 <= j < exprs.len() ==> transformable(source@, #[trigger] exprs@[j]),
            transform_list_spec(source@, *exprs, i as nat) == Ok::<Seq<SemExpr>, Seq<char>>(
                sem_views(out@),
            ),
        decreases exprs.len() - i,
    {
        let x = transform_expression(&exprs[i], source);
        match x {
            Ok(x) => {
                let ghost before = out@;
                out.push(x);
                assert(sem_views(out@) =~= sem_views(before).push(x@));
            },
            Err(err) => {
                proof {
                    lemma_list_error_stays(source@, *exprs, (i + 1) as nat, exprs.len() as nat);
                }
                return Err(err);
            },
        }
        i = i + 1;
    }
    Ok(out)
}

/// Once a list transform fails, transforming a longer prefix fails with
/// the same message.
proof fn lemma_list_error_stays(src: Seq<Seq<char>>, v: Vec<syntax::Expression>, k: nat, n: nat)
    requires
        0 < k <= n <= v.len(),
        transform_list_spec(src, v, k) is Err,
    ensures
        transform_list_spec(src, v, n) == transform_list_spec(src, v, k),
    decreases n - k,
{
    if n > k {
        lemma_list_error_stays(src, v, k, (n - 1) as nat);
    }
}

/// The declarations of a function's parameters
fn param_decls(ps: &Vec<TypedId>, source: &SourceText) -> (r: Vec<VarDecl>)
    requires
        params_transformable(source@, ps@),
    ensures
        r@.map_values(|p: VarDecl| p@) == param_decls_spec(source@, ps@),
{
    let mut params: Vec<VarDecl> = Vec::new();
    let mut k: usize = 0;
    assert(params@.map_values(|p: VarDecl| p@) =~= param_decls_spec(source@, ps@.take(0)));
    while k < ps.len()
        invariant
            k <= ps.len(),
            params_transformable(source@, ps@),
            params@.map_values(|p: VarDecl| p@) == param_decls_spec(source@, ps@.take(k as int)),
        decreases ps.len() - k,
    {
        let p = ps[k];
        assert(p == ps@[k as int]);
        let decl = VarDecl { ident: source.interned_value(p.id), ty: map_anno(&p.typ, source) };
        let ghost before = params@;
        params.push(decl);
        proof {
            let g = |p: TypedId| VarDeclView { ident: name_of(source@, p.id), ty: map_anno_spec(source@, p.typ) };
            assert(params@ == before.push(decl));
            assert(params@.map_values(|p: VarDecl| p@) =~= before.map_values(|p: VarDecl| p@).push(decl@));
            assert(ps@.take(k + 1) =~= ps@.take(k as int).push(p));
            assert(ps@.take(k + 1).map_values(g) =~= ps@.take(k as int).map_values(g).push(g(p)));
        }
        k = k + 1;
    }
    assert(ps@.take(ps.len() as int) =~= ps@);
    params
}

/// Transform Expression
///
/// Convert a syntax expression into a semantic one. Fails if an
/// assignment's target is not an identifier.
pub fn transform_expression(expr: &syntax::Expression, source: &SourceText) -> (r: Result<
    Expression,
    Error,
>)
    requires
        transformable(source@, *expr),
    ensures
        result_view(r) == transform_spec(source@, *expr),
    decreases expr,
{
    match expr {
        syntax::Expression::Identifier(i) => {
            Ok(Expression::new(ExpressionKind::Identifier(source.interned_value(i.ident)), None))
        },
        syntax::Expression::Literal(l) => {
            let typ = Typ::Builtin(
                match l.value {
                    syntax::Constant::Bool(_) => BuiltinType::Bool,
                    syntax::Constant::Number(_) => BuiltinType::Number,
                    syntax::Constant::String(_) => BuiltinType::String,
                },
            );
            Ok(Expression::new(ExpressionKind::Literal(l.value.duplicate()), Some(typ)))
        },
        syntax::Expression::Sequence(seq) => {
            let transformed = transform_list(seq, source)?;
            let n = transformed.len();
            let typ = if n == 0 {
                None
            } else {
                transformed[n - 1].typ
            };
            proof {
                lemma_sem_view_list(transformed, n as nat);
                assert(transformed@.take(n as int) =~= transformed@);
            }
            Ok(Expression::new(ExpressionKind::Sequence(transformed), typ))
        },
        syntax::Expression::Prefix(p) => {
            let transformed = transform_expression(&p.inner, source)?;
            let typ = transformed.typ;
            Ok(Expression::new(ExpressionKind::Prefix(p.op, Box::new(transformed)), typ))
        },
        syntax::Expression::Infix(i) => {
            let rhs = transform_expression(&i.right, source)?;
            if i.op == InfixOp::Assign {
                match &*i.left {
                    syntax::Expression::Identifier(id) => Ok(
                        Expression::new(
                            ExpressionKind::Assignment(
                                source.interned_value(id.ident),
                                Box::new(rhs),
                            ),
                            None,
                        ),
                    ),
                    _ => Err(
                        Error::Generic(
                            String::from_str(
                                "left hand side of an assignment must be an identifier",
                            ),
                        ),
                    ),
                }
            } else {
                let lhs = transform_expression(&i.left, source)?;
                let typ = if i.op == InfixOp::Eq || i.op == InfixOp::NotEq || i.op == InfixOp::Gt
                    || i.op == InfixOp::Lt {
                    Some(Typ::Builtin(BuiltinType::Bool))
                } else if lhs.typ.is_some() {
                    lhs.typ
                } else {
                    rhs.typ
                };
                Ok(Expression::new(ExpressionKind::Infix(Box::new(lhs), i.op, Box::new(rhs)), typ))
            }
        },
        syntax::Expression::Index(i) => {
            let e = transform_expression(&i.indexee, source)?;
            let index = transform_expression(&i.index, source)?;
            Ok(Expression::new(ExpressionKind::Index(Box::new(e), Box::new(index)), None))
        },
        syntax::Expression::IfThenElse(i) => {
            let iff = transform_expression(&i.cond, source)?;
            let then = transform_expression(&i.if_true, source)?;
            let els = transform_expression(&i.if_false, source)?;
            let typ = then.typ;
            Ok(
                Expression::new(
                    ExpressionKind::IfThenElse(Box::new(iff), Box::new(then), Box::new(els)),
                    typ,
                ),
            )
        },
        syntax::Expression::Loop(l) => {
            let condition = transform_expression(&l.condition, source)?;
            let body = transform_expression(&l.body.contents, source)?;
            Ok(
                Expression::new(
                    ExpressionKind::Loop(Box::new(condition), Box::new(body)),
                    Some(Typ::Unit),
                ),
            )
        },
        syntax::Expression::Print(p) => {
            let transformed = transform_expression(&p.inner, source)?;
            let typ = transformed.typ;
            Ok(Expression::new(ExpressionKind::Print(Box::new(transformed)), typ))
        },
        syntax::Expression::Function(f) => {
            let ret_ty = map_type(&f.return_type, source);
            let params = param_decls(&f.params, source);
            let body = transform_expression(&f.body.contents, source)?;
            Ok(
                Expression::new(
                    ExpressionKind::Function(
                        FnDecl {
                            ident: source.interned_value(f.identifier),
                            ret_ty,
                            params,
                            body: Box::new(body),
                        },
                    ),
                    None,
                ),
            )
        },
        syntax::Expression::Declaration(d) => {
            let initialiser = transform_expression(&d.initialiser, source)?;
            let typ = initialiser.typ;
            let decl = VarDecl { ident: source.interned_value(d.id.id), ty: map_anno(&d.id.typ, source) };
            Ok(
                Expression::new(
                    ExpressionKind::Declaration(
                        decl,
                        d.style == VarStyle::Mutable,
                        Box::new(initialiser),
                    ),
                    typ,
                ),
            )
        },
        syntax::Expression::Call(c) => {
            let callee = transform_expression(&c.callee, source)?;
            let args = transform_list(&c.arguments, source)?;
            proof {
                lemma_sem_view_list(args, args.len() as nat);
                assert(args@.take(args.len() as int) =~= args@);
            }
            Ok(Expression::new(ExpressionKind::Call(Box::new(callee), args), None))
        },
        syntax::Expression::Grouping(g) => transform_expression(&g.inner, source),
    }
}

} // verus!
