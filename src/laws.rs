//! Properties of scopes and binds that hold for all inputs.
use vstd::prelude::*;

use crate::diag::DiagnosticView;
use crate::model::{
    bind_args_spec, bind_assign_spec, bind_block_spec, bind_declaration_spec, bind_function_spec,
    bind_call_spec, bind_identifier_spec, bind_if_else_spec, bind_infix_spec, bind_loop_spec, bind_prefix_spec,
    bind_print_spec, bind_sequence_spec, bind_index_spec, bind_list_spec, bind_params_spec,
    bind_spec, bind_tree_spec, bind_type_spec, declare_function_spec, declare_list_spec,
    declare_in, declare_spec, msg_cant_find, msg_initialiser_mismatch, msg_not_mutable, or_unknown,
    param_types_spec, report, take_spec, BindState,
};
use crate::scope::{
    declare_once, flatten_functions, functions_of, stack_lookup, SymbolView,
};
use crate::syntax::{
    span_of, BlockBody, CallExpression, DeclarationExpression, Expression, IdentifierExpression, FunctionExpression, InfixOp, TypeRef, TypedId,
    VarStyle,
};
use crate::text::{enclosing_spec, intern_spec, name_of, names_distinct, Ident, Span};
use crate::tree::{sem_error, SemKind};
use crate::types::Typ;

verus! {

/// Insert-once: once a name is declared in a scope, declaring it again
/// fails and leaves the scope, and so every lookup in it, as it was.
pub proof fn law_insert_once(
    m: Map<Ident, SymbolView>,
    id: Ident,
    first: SymbolView,
    second: SymbolView,
)
    ensures
        declare_once(m, id, first).contains_key(id),
        declare_once(declare_once(m, id, first), id, second) == declare_once(m, id, first),
{
}

/// Shadowing: with an outer scope and an inner scope pushed over it
/// that both declare `x`, lookup finds the inner declaration; once the
/// inner scope is popped it finds the outer one.
pub proof fn law_shadowing(
    st: Seq<Map<Ident, SymbolView>>,
    outer: Map<Ident, SymbolView>,
    inner: Map<Ident, SymbolView>,
    x: Ident,
)
    requires
        outer.contains_key(x),
        inner.contains_key(x),
    ensures
        stack_lookup(st.push(outer).push(inner), x) == Some(inner[x]),
        stack_lookup(st.push(outer).push(inner).drop_last(), x) == Some(outer[x]),
{
    assert(st.push(outer).push(inner).drop_last() =~= st.push(outer));
}

/// A function declared in the innermost scope is in the flattened
/// function scope, with its signature.
pub proof fn law_innermost_function_flattened(st: Seq<Map<Ident, SymbolView>>, f: Ident)
    requires
        st.len() > 0,
        st.last().contains_key(f),
        st.last()[f] is Function,
    ensures
        flatten_functions(st).contains_key(f),
        flatten_functions(st)[f] == st.last()[f],
    decreases st.len(),
{
    let rest = st.subrange(1, st.len() as int);
    if st.len() == 1 {
        assert(functions_of(st[0]).contains_key(f));
        assert(flatten_functions(rest) =~= Map::empty());
    } else {
        assert(rest.last() == st.last());
        law_innermost_function_flattened(rest, f);
    }
}

/// Typing parameters for a declaration changes no scope.
proof fn lemma_param_types_keep_scopes(st: BindState, ps: Seq<TypedId>, k: nat)
    ensures
        param_types_spec(st, ps, k).1.scopes == st.scopes,
    decreases k,
{
    if k > 0 && k <= ps.len() {
        lemma_param_types_keep_scopes(st, ps, (k - 1) as nat);
    }
}

/// Declaring a function declares its name as a function in the
/// innermost scope, unless that scope already declares it.
proof fn lemma_declare_function(st: BindState, f: FunctionExpression)
    requires
        st.scopes.len() > 0,
    ensures
        declare_function_spec(st, f).scopes.len() == st.scopes.len(),
        declare_function_spec(st, f).scopes.drop_last() == st.scopes.drop_last(),
        exists|sym: SymbolView|
            sym is Function && declare_function_spec(st, f).scopes.last() == declare_once(
                st.scopes.last(),
                f.identifier,
                sym,
            ),
{
    let (ptys, st1) = param_types_spec(st, f.params@, f.params.len() as nat);
    lemma_param_types_keep_scopes(st, f.params@, f.params.len() as nat);
    let (ret, st2) = bind_type_spec(st1, f.return_type);
    let r = declare_function_spec(st, f);
    assert(r.scopes.drop_last() =~= st.scopes.drop_last());
    assert(r.scopes.last() == declare_once(
        st.scopes.last(),
        f.identifier,
        SymbolView::Function(ptys, ret),
    ));
}

/// The declare pass only adds function declarations to the innermost
/// scope and changes no other scope.
proof fn lemma_declare_adds_functions(st: BindState, e: Expression)
    requires
        st.scopes.len() > 0,
    ensures
        declare_spec(st, e).scopes.len() == st.scopes.len(),
        declare_spec(st, e).scopes.drop_last() == st.scopes.drop_last(),
        st.scopes.last().submap_of(declare_spec(st, e).scopes.last()),
        forall|k: Ident|
            #![trigger declare_spec(st, e).scopes.last()[k]]
            declare_spec(st, e).scopes.last().contains_key(k) ==> st.scopes.last().contains_key(k)
                || declare_spec(st, e).scopes.last()[k] is Function,
    decreases e,
{
    match e {
        Expression::Function(f) => {
            lemma_declare_function(st, f);
        },
        Expression::Sequence(v) => {
            lemma_declare_list_adds_functions(st, v, v.len() as nat);
        },
        Expression::Grouping(g) => {
            lemma_declare_adds_functions(st, *g.inner);
        },
        _ => {},
    }
}

/// The declare pass over the first `k` expressions of a sequence only
/// adds function declarations to the innermost scope.
proof fn lemma_declare_list_adds_functions(st: BindState, v: Vec<Expression>, k: nat)
    requires
        st.scopes.len() > 0,
    ensures
        declare_list_spec(st, v, k).scopes.len() == st.scopes.len(),
        declare_list_spec(st, v, k).scopes.drop_last() == st.scopes.drop_last(),
        st.scopes.last().submap_of(declare_list_spec(st, v, k).scopes.last()),
        forall|n: Ident|
            #![trigger declare_list_spec(st, v, k).scopes.last()[n]]
            declare_list_spec(st, v, k).scopes.last().contains_key(n) ==> st.scopes.last().contains_key(n)
                || declare_list_spec(st, v, k).scopes.last()[n] is Function,
    decreases v, k,
{
    if k > 0 && k <= v.len() {
        let st1 = declare_list_spec(st, v, (k - 1) as nat);
        lemma_declare_list_adds_functions(st, v, (k - 1) as nat);
        lemma_declare_adds_functions(st1, v[k - 1]);
        let a = st.scopes.last();
        let b = st1.scopes.last();
        let c = declare_list_spec(st, v, k).scopes.last();
        assert(a.submap_of(c)) by {
            assert forall|key: Ident| #[trigger] a.contains_key(key) implies c.contains_key(key)
                && a[key] == c[key] by {
                assert(b.contains_key(key));
            }
        }
    }
}

/// Mutual recursion: after the declare pass over a sequence, every
/// function of the sequence whose name the innermost scope did not
/// declare before is declared there as a function, and so is visible
/// in the base scope of every function body bound from that state,
/// whatever the order of the functions in the sequence.
pub proof fn law_declare_pass_declares_siblings(st: BindState, v: Vec<Expression>, j: int)
    requires
        st.scopes.len() > 0,
        0 <= j < v.len(),
        v[j] is Function,
        !st.scopes.last().contains_key(v[j]->Function_0.identifier),
    ensures
        ({
            let id = v[j]->Function_0.identifier;
            let after = declare_list_spec(st, v, v.len() as nat);
            &&& after.scopes.last().contains_key(id)
            &&& after.scopes.last()[id] is Function
            &&& flatten_functions(after.scopes).contains_key(id)
            &&& flatten_functions(after.scopes)[id] is Function
        }),
{
    let id = v[j]->Function_0.identifier;
    lemma_declare_prefix_declares(st, v, j, v.len() as nat);
    let after = declare_list_spec(st, v, v.len() as nat);
    lemma_declare_list_adds_functions(st, v, v.len() as nat);
    law_innermost_function_flattened(after.scopes, id);
}

/// Once the declare pass has passed the function at `j`, its name is
/// declared as a function in the innermost scope.
proof fn lemma_declare_prefix_declares(st: BindState, v: Vec<Expression>, j: int, k: nat)
    requires
        st.scopes.len() > 0,
        0 <= j < k <= v.len(),
        v[j] is Function,
        !st.scopes.last().contains_key(v[j]->Function_0.identifier),
    ensures
        declare_list_spec(st, v, k).scopes.last().contains_key(v[j]->Function_0.identifier),
        declare_list_spec(st, v, k).scopes.last()[v[j]->Function_0.identifier] is Function,
    decreases k,
{
    let id = v[j]->Function_0.identifier;
    let prev = declare_list_spec(st, v, (k - 1) as nat);
    lemma_declare_list_adds_functions(st, v, (k - 1) as nat);
    lemma_declare_adds_functions(prev, v[k - 1]);
    if j < k - 1 {
        lemma_declare_prefix_declares(st, v, j, (k - 1) as nat);
        let b = prev.scopes.last();
        let c = declare_list_spec(st, v, k).scopes.last();
        assert(declare_list_spec(st, v, k) == declare_spec(prev, v[k - 1]));
        assert(b.submap_of(c));
        assert(b.dom().contains(id));
        assert(c.dom().contains(id));
        assert(c[id] == b[id]);
    } else {
        let f = v[j]->Function_0;
        assert(v[k - 1] == Expression::Function(f));
        lemma_declare_function(prev, f);
        if prev.scopes.last().contains_key(id) {
            assert(prev.scopes.last()[id] is Function);
        }
    }
}

/// A name that no scope declares as a function is not in the flattened
/// function scope: enclosing variables are not carried into function
/// bodies.
pub proof fn law_flatten_only_functions(st: Seq<Map<Ident, SymbolView>>, x: Ident)
    requires
        forall|i: int| 0 <= i < st.len() ==> !(#[trigger] st[i]).contains_key(x) || !(st[i][x] is Function),
    ensures
        !flatten_functions(st).contains_key(x),
    decreases st.len(),
{
    if st.len() > 0 {
        let rest = st.subrange(1, st.len() as int);
        assert forall|i: int| 0 <= i < rest.len() implies !(#[trigger] rest[i]).contains_key(x)
            || !(rest[i][x] is Function) by {
            assert(rest[i] == st[i + 1]);
        }
        law_flatten_only_functions(rest, x);
        assert(st[0] == st[0]);
    }
}

/// Binding the first `k` parameters only adds the parameters' names to
/// the base scope.
proof fn lemma_params_only_add_params(
    src: Seq<Seq<char>>,
    st: BindState,
    ps: Seq<TypedId>,
    base: Map<Ident, SymbolView>,
    k: nat,
    x: Ident,
)
    requires
        !base.contains_key(x),
        forall|j: int| 0 <= j < ps.len() ==> (#[trigger] ps[j]).id != x,
    ensures
        !bind_params_spec(src, st, ps, base, k).2.contains_key(x),
    decreases k,
{
    if k > 0 && k <= ps.len() {
        lemma_params_only_add_params(src, st, ps, base, (k - 1) as nat, x);
        assert(ps[k - 1].id != x);
    }
}

/// No closures: a name that the enclosing scopes declare only as a
/// variable or a type, and that is not a parameter, is absent from the
/// base scope that a function's body is bound in.
pub proof fn law_no_closures(src: Seq<Seq<char>>, st: BindState, f: FunctionExpression, x: Ident)
    requires
        forall|i: int|
            0 <= i < st.scopes.len() ==> !(#[trigger] st.scopes[i]).contains_key(x) || !(
            st.scopes[i][x] is Function),
        forall|j: int| 0 <= j < f.params.len() ==> (#[trigger] f.params@[j]).id != x,
    ensures
        !bind_params_spec(
            src,
            st,
            f.params@,
            flatten_functions(st.scopes),
            f.params.len() as nat,
        ).2.contains_key(x),
{
    law_flatten_only_functions(st.scopes, x);
    lemma_params_only_add_params(
        src,
        st,
        f.params@,
        flatten_functions(st.scopes),
        f.params.len() as nat,
        x,
    );
}

/// A name an interner holds is held at a position a `usize` can name.
proof fn lemma_held_at_usize(names: Seq<Seq<char>>, s: Seq<char>)
    requires
        names.contains(s),
        names.len() <= usize::MAX,
    ensures
        exists|i: usize| i < names.len() && names[i as int] == s,
{
    let k = choose|k: int| 0 <= k < names.len() && names[k] == s;
    assert(names[(k as usize) as int] == s);
}

/// Interning a name a second time changes nothing and gives the same
/// handle.
proof fn lemma_intern_idempotent(names: Seq<Seq<char>>, s: Seq<char>)
    requires
        names_distinct(names),
        names.len() < usize::MAX,
    ensures
        names_distinct(intern_spec(names, s).0),
        intern_spec(intern_spec(names, s).0, s) == intern_spec(names, s),
{
    let (n1, id) = intern_spec(names, s);
    if !names.contains(s) {
        assert(n1[names.len() as int] == s);
        assert(n1.contains(s));
        lemma_held_at_usize(n1, s);
        let c = choose|i: usize| i < n1.len() && n1[i as int] == s;
        if c != names.len() {
            assert(names[c as int] == s);
            assert(names.contains(s));
        }
    }
}

/// Binding is repeatable: binding a tree a second time, with the source
/// as the first bind left it and a fresh binder over the same base
/// scope, gives the same semantic tree and the same diagnostics, and
/// interns nothing new.
pub proof fn law_bind_repeatable(
    names: Seq<Seq<char>>,
    base: Map<Ident, SymbolView>,
    tree: Expression,
)
    requires
        names_distinct(names),
        names.len() + 3 <= usize::MAX,
    ensures
        ({
            let fresh = BindState { scopes: seq![base], diags: Seq::empty() };
            let first = bind_tree_spec(names, fresh, tree);
            let second = bind_tree_spec(first.2, fresh, tree);
            &&& second.0 == first.0
            &&& second.1.diags == first.1.diags
            &&& second.2 == first.2
        }),
{
    let (n1, s) = intern_spec(names, "String"@);
    lemma_intern_idempotent(names, "String"@);
    let (n2, b) = intern_spec(n1, "Bool"@);
    lemma_intern_idempotent(n1, "Bool"@);
    let (n3, n) = intern_spec(n2, "Number"@);
    lemma_intern_idempotent(n2, "Number"@);
    lemma_intern_unchanged(n3, n1, "String"@);
    lemma_intern_unchanged(n3, n2, "Bool"@);
}

/// Interning a name that an interner already holds, at the same place
/// as in an earlier interner it extends, gives the same handle.
proof fn lemma_intern_unchanged(later: Seq<Seq<char>>, earlier: Seq<Seq<char>>, s: Seq<char>)
    requires
        names_distinct(later),
        names_distinct(earlier),
        earlier.len() <= later.len(),
        forall|i: int| 0 <= i < earlier.len() ==> later[i] == earlier[i],
        earlier.contains(s),
        later.len() <= usize::MAX,
    ensures
        intern_spec(later, s) == (later, intern_spec(earlier, s).1),
{
    lemma_held_at_usize(earlier, s);
    let i = choose|i: usize| i < earlier.len() && earlier[i as int] == s;
    assert(later[i as int] == s);
    assert(later.contains(s));
    lemma_held_at_usize(later, s);
    let c = choose|c: usize| c < later.len() && later[c as int] == s;
    if c != i {
        if c < i {
            assert(later[c as int] != later[i as int]);
        } else {
            assert(later[i as int] != later[c as int]);
        }
    }
}

/// Diagnostics drain once: after they are taken, taking them again
/// yields none.
pub proof fn law_drain_once(st: BindState)
    ensures
        take_spec(take_spec(st).1).0 == Seq::<DiagnosticView>::empty(),
        take_spec(st).0 == st.diags,
{
}

/// The innermost scope of `a` is kept, entry for entry, in `b`, and no
/// other scope changes.
pub open spec fn scopes_grow(a: BindState, b: BindState) -> bool {
    &&& a.scopes.len() == b.scopes.len()
    &&& a.scopes.drop_last() == b.scopes.drop_last()
    &&& a.scopes.last().submap_of(b.scopes.last())
}

proof fn lemma_grow_trans(a: BindState, b: BindState, c: BindState)
    requires
        a.scopes.len() > 0,
        scopes_grow(a, b),
        scopes_grow(b, c),
    ensures
        scopes_grow(a, c),
{
    assert forall|key: Ident| #[trigger] a.scopes.last().dom().contains(key) implies c.scopes.last().dom().contains(key)
        && a.scopes.last()[key] == c.scopes.last()[key] by {
        assert(b.scopes.last().dom().contains(key));
    }
}

proof fn lemma_type_keeps_scopes(st: BindState, t: TypeRef)
    ensures
        bind_type_spec(st, t).1.scopes == st.scopes,
{
}

proof fn lemma_params_keep_scopes(
    src: Seq<Seq<char>>,
    st: BindState,
    ps: Seq<TypedId>,
    base: Map<Ident, SymbolView>,
    k: nat,
)
    ensures
        bind_params_spec(src, st, ps, base, k).1.scopes == st.scopes,
    decreases k,
{
    if k > 0 && k <= ps.len() {
        lemma_params_keep_scopes(src, st, ps, base, (k - 1) as nat);
    }
}

proof fn lemma_same_scopes_grow(a: BindState, b: BindState)
    requires
        a.scopes == b.scopes,
    ensures
        scopes_grow(a, b),
{
    assert forall|key: Ident| #[trigger] a.scopes.last().dom().contains(key) implies b.scopes.last().dom().contains(key)
        && a.scopes.last()[key] == b.scopes.last()[key] by {
    }
}

/// Binding never removes or changes a declaration of the innermost
/// scope, keeps the depth of the scope stack, and changes no other
/// scope.
pub proof fn lemma_bind_grows(src: Seq<Seq<char>>, st: BindState, e: Expression)
    requires
        st.scopes.len() > 0,
    ensures
        scopes_grow(st, bind_spec(src, st, e).1),
    decreases e,
{
    let st1 = bind_spec(src, st, e).1;
    match e {
        Expression::Identifier(i) => {
            lemma_same_scopes_grow(st, st1);
        },
        Expression::Literal(_) => {
            lemma_same_scopes_grow(st, st1);
        },
        Expression::Prefix(p) => {
            lemma_bind_grows(src, st, *p.inner);
            assert(bind_spec(src, st, e) == bind_prefix_spec(src, st, p));
        },
        Expression::Print(p) => {
            lemma_bind_grows(src, st, *p.inner);
            assert(bind_spec(src, st, e) == bind_print_spec(src, st, p));
        },
        Expression::Grouping(g) => {
            lemma_bind_grows(src, st, *g.inner);
        },
        Expression::Infix(i) => {
            assert(bind_spec(src, st, e) == bind_infix_spec(src, st, i));
            if i.op == InfixOp::Assign {
                match *i.left {
                    Expression::Identifier(id) => {
                        assert(bind_infix_spec(src, st, i) == bind_assign_spec(src, st, id, i));
                        match stack_lookup(st.scopes, id.ident) {
                            Some(SymbolView::Variable(style, typ)) => {
                                let sa = if style != VarStyle::Mutable {
                                    report(st, msg_not_mutable(name_of(src, id.ident)), i.op_span)
                                } else {
                                    st
                                };
                                lemma_same_scopes_grow(st, sa);
                                lemma_bind_grows(src, sa, *i.right);
                                let sb = bind_spec(src, sa, *i.right).1;
                                lemma_grow_trans(st, sa, sb);
                                lemma_same_scopes_grow(sb, st1);
                                lemma_grow_trans(st, sb, st1);
                            },
                            _ => {
                                lemma_same_scopes_grow(st, st1);
                            },
                        }
                    },
                    _ => {
                        lemma_same_scopes_grow(st, st1);
                    },
                }
            } else {
                let sa = bind_spec(src, st, *i.left).1;
                lemma_bind_grows(src, st, *i.left);
                lemma_bind_grows(src, sa, *i.right);
                lemma_grow_trans(st, sa, bind_spec(src, sa, *i.right).1);
            }
        },
        Expression::Index(i) => {
            let sa = bind_spec(src, st, *i.indexee).1;
            let sb = bind_spec(src, sa, *i.index).1;
            lemma_bind_grows(src, st, *i.indexee);
            lemma_bind_grows(src, sa, *i.index);
            lemma_grow_trans(st, sa, sb);
            assert(bind_spec(src, st, e) == bind_index_spec(src, st, i));
            lemma_same_scopes_grow(sb, st1);
            lemma_grow_trans(st, sb, st1);
        },
        Expression::IfThenElse(i) => {
            let sa = bind_spec(src, st, *i.cond).1;
            let sb = bind_spec(src, sa, *i.if_true).1;
            lemma_bind_grows(src, st, *i.cond);
            lemma_bind_grows(src, sa, *i.if_true);
            lemma_bind_grows(src, sb, *i.if_false);
            lemma_grow_trans(st, sa, sb);
            let sc = bind_spec(src, sb, *i.if_false).1;
            lemma_grow_trans(st, sb, sc);
            assert(bind_spec(src, st, e) == bind_if_else_spec(src, st, i));
            lemma_same_scopes_grow(sc, st1);
            lemma_grow_trans(st, sc, st1);
        },
        Expression::Call(c) => {
            assert(bind_spec(src, st, e) == bind_call_spec(src, st, c));
            let sa = bind_spec(src, st, *c.callee).1;
            lemma_bind_grows(src, st, *c.callee);
            match bind_spec(src, st, *c.callee).0.typ {
                Some(Typ::Function(id)) => match stack_lookup(sa.scopes, id) {
                    Some(SymbolView::Function(params, ret)) => {
                        let np = params.len();
                        let na = c.arguments.len() as nat;
                        let s2 = if na < np {
                            report(sa, "Too few arguments to call"@, enclosing_spec(c.open_paren, c.close_paren))
                        } else {
                            sa
                        };
                        let s3 = if na > np {
                            report(
                                s2,
                                "Too many arguments to call"@,
                                Span { start: span_of(c.arguments[np as int]).start, end: c.close_paren.start },
                            )
                        } else {
                            s2
                        };
                        let k = if na < np {
                            na
                        } else {
                            np
                        };
                        lemma_same_scopes_grow(sa, s3);
                        lemma_grow_trans(st, sa, s3);
                        lemma_args_grow(src, s3, c, params, k);
                        lemma_grow_trans(st, s3, bind_args_spec(src, s3, c, params, k).1);
                    },
                    _ => {
                        lemma_same_scopes_grow(sa, st1);
                        lemma_grow_trans(st, sa, st1);
                    },
                },
                _ => {
                    lemma_same_scopes_grow(sa, st1);
                    lemma_grow_trans(st, sa, st1);
                },
            }
        },
        Expression::Function(f) => {
            lemma_params_keep_scopes(
                src,
                st,
                f.params@,
                flatten_functions(st.scopes),
                f.params.len() as nat,
            );
            let sp = bind_params_spec(
                src,
                st,
                f.params@,
                flatten_functions(st.scopes),
                f.params.len() as nat,
            ).1;
            lemma_type_keeps_scopes(sp, f.return_type);
            assert(bind_spec(src, st, e) == bind_function_spec(src, st, f));
            lemma_same_scopes_grow(st, st1);
        },
        Expression::Loop(l) => {
            let sa = bind_spec(src, st, *l.condition).1;
            lemma_bind_grows(src, st, *l.condition);
            lemma_block_keeps_scopes(src, sa, l.body);
            assert(bind_spec(src, st, e) == bind_loop_spec(src, st, l));
            lemma_same_scopes_grow(sa, st1);
            lemma_grow_trans(st, sa, st1);
        },
        Expression::Sequence(v) => {
            lemma_list_grows(src, st, v, v.len() as nat);
            assert(bind_spec(src, st, e) == bind_sequence_spec(src, st, v));
        },
        Expression::Declaration(d) => {
            let (decl_type, sa) = match d.id.typ {
                Some(t) => bind_type_spec(st, t),
                None => (Typ::Unknown, st),
            };
            let (init, sb) = bind_spec(src, sa, *d.initialiser);
            lemma_bind_grows(src, sa, *d.initialiser);
            let name = name_of(src, d.id.id);
            let (ty, sc) = if decl_type != Typ::Unknown {
                if init.typ matches Some(t) && t != decl_type {
                    (Some(Typ::Error), report(sb, msg_initialiser_mismatch(name), d.id.id_span))
                } else {
                    (Some(decl_type), sb)
                }
            } else {
                (init.typ, sb)
            };
            let sd = declare_in(sc, d.id.id, SymbolView::Variable(d.style, or_unknown(ty)));
            assert(bind_spec(src, st, e) == bind_declaration_spec(src, st, d));
            assert(st1 == sd);
            assert(sd.scopes.drop_last() =~= sb.scopes.drop_last());
            assert(st.scopes.last().submap_of(sd.scopes.last())) by {
                assert forall|key: Ident| #[trigger] st.scopes.last().dom().contains(key) implies sd.scopes.last().dom().contains(key)
                    && st.scopes.last()[key] == sd.scopes.last()[key] by {
                    assert(sb.scopes.last().dom().contains(key));
                }
            }
        },
    }
}

/// A block leaves the scopes as they were.
proof fn lemma_block_keeps_scopes(src: Seq<Seq<char>>, st: BindState, b: BlockBody)
    requires
        st.scopes.len() > 0,
    ensures
        bind_block_spec(src, st, b).1.scopes == st.scopes,
    decreases b,
{
    let inner = BindState { scopes: st.scopes.push(Map::empty()), diags: st.diags };
    let declared = declare_spec(inner, *b.contents);
    lemma_declare_adds_functions(inner, *b.contents);
    lemma_bind_grows(src, declared, *b.contents);
    assert(inner.scopes.drop_last() =~= st.scopes);
}

proof fn lemma_list_grows(src: Seq<Seq<char>>, st: BindState, v: Vec<Expression>, k: nat)
    requires
        st.scopes.len() > 0,
    ensures
        scopes_grow(st, bind_list_spec(src, st, v, k).1),
    decreases v, k,
{
    if k > 0 && k <= v.len() {
        let sa = bind_list_spec(src, st, v, (k - 1) as nat).1;
        lemma_list_grows(src, st, v, (k - 1) as nat);
        lemma_bind_grows(src, sa, v[k - 1]);
        lemma_grow_trans(st, sa, bind_spec(src, sa, v[k - 1]).1);
    }
}

proof fn lemma_args_grow(
    src: Seq<Seq<char>>,
    st: BindState,
    c: CallExpression,
    params: Seq<Typ>,
    k: nat,
)
    requires
        st.scopes.len() > 0,
    ensures
        scopes_grow(st, bind_args_spec(src, st, c, params, k).1),
    decreases c, k,
{
    if k > 0 && k <= c.arguments.len() && k <= params.len() {
        let sa = bind_args_spec(src, st, c, params, (k - 1) as nat).1;
        lemma_args_grow(src, st, c, params, (k - 1) as nat);
        lemma_bind_grows(src, sa, c.arguments[k - 1]);
        lemma_grow_trans(st, sa, bind_spec(src, sa, c.arguments[k - 1]).1);
    }
}

/// Mutual recursion during the bind pass: when a sequence is declared
/// and then bound, the function at `i` is bound in a state whose
/// flattened function scope, the base of its body's scope, holds the
/// function at `j` as a function, whichever comes first.
pub proof fn law_siblings_visible_in_bodies(
    src: Seq<Seq<char>>,
    st: BindState,
    v: Vec<Expression>,
    i: int,
    j: int,
)
    requires
        st.scopes.len() > 0,
        0 <= i < v.len(),
        0 <= j < v.len(),
        v[i] is Function,
        v[j] is Function,
        !st.scopes.last().contains_key(v[j]->Function_0.identifier),
    ensures
        ({
            let declared = declare_list_spec(st, v, v.len() as nat);
            let before_i = bind_list_spec(src, declared, v, i as nat).1;
            let g = v[j]->Function_0.identifier;
            &&& bind_spec(src, before_i, v[i]) == bind_function_spec(src, before_i, v[i]->Function_0)
            &&& flatten_functions(before_i.scopes).contains_key(g)
            &&& flatten_functions(before_i.scopes)[g] is Function
        }),
{
    let declared = declare_list_spec(st, v, v.len() as nat);
    let g = v[j]->Function_0.identifier;
    law_declare_pass_declares_siblings(st, v, j);
    lemma_declare_list_adds_functions(st, v, v.len() as nat);
    lemma_list_grows(src, declared, v, i as nat);
    let before_i = bind_list_spec(src, declared, v, i as nat).1;
    assert(declared.scopes.last().dom().contains(g));
    assert(before_i.scopes.last().dom().contains(g));
    assert(before_i.scopes.last()[g] == declared.scopes.last()[g]);
    law_innermost_function_flattened(before_i.scopes, g);
}

/// A declaration keeps the depth and the outer scopes, keeps every
/// earlier declaration of the innermost scope, and leaves its name
/// declared there.
pub proof fn law_declaration_declares(src: Seq<Seq<char>>, st: BindState, d: DeclarationExpression)
    requires
        st.scopes.len() > 0,
    ensures
        scopes_grow(st, bind_declaration_spec(src, st, d).1),
        bind_declaration_spec(src, st, d).1.scopes.last().contains_key(d.id.id),
{
    let e = Expression::Declaration(d);
    lemma_bind_grows(src, st, e);
    assert(bind_spec(src, st, e) == bind_declaration_spec(src, st, d));
    let (decl_type, sa) = match d.id.typ {
        Some(t) => bind_type_spec(st, t),
        None => (Typ::Unknown, st),
    };
    let (init, sb) = bind_spec(src, sa, *d.initialiser);
    lemma_bind_grows(src, sa, *d.initialiser);
    let name = name_of(src, d.id.id);
    let (ty, sc) = if decl_type != Typ::Unknown {
        if init.typ matches Some(t) && t != decl_type {
            (Some(Typ::Error), report(sb, msg_initialiser_mismatch(name), d.id.id_span))
        } else {
            (Some(decl_type), sb)
        }
    } else {
        (init.typ, sb)
    };
    let sd = declare_in(sc, d.id.id, SymbolView::Variable(d.style, or_unknown(ty)));
    assert(bind_declaration_spec(src, st, d).1 == sd);
    assert(sd.scopes.last() == declare_once(sc.scopes.last(), d.id.id, SymbolView::Variable(d.style, or_unknown(ty))));
}

/// No closures, as a diagnostic: a function whose body refers to a
/// name that the enclosing scopes declare only as a variable or a type,
/// and that is not a parameter, binds that reference to the error node
/// and reports, last, that the name cannot be found.
pub proof fn law_no_closures_reported(
    src: Seq<Seq<char>>,
    st: BindState,
    f: FunctionExpression,
    r: IdentifierExpression,
)
    requires
        *f.body.contents == Expression::Identifier(r),
        forall|i: int|
            0 <= i < st.scopes.len() ==> !(#[trigger] st.scopes[i]).contains_key(r.ident) || !(
            st.scopes[i][r.ident] is Function),
        forall|j: int| 0 <= j < f.params.len() ==> (#[trigger] f.params@[j]).id != r.ident,
    ensures
        ({
            let (bound, after) = bind_function_spec(src, st, f);
            &&& bound.kind matches SemKind::Function(_, _, _, body) && *body == sem_error()
            &&& after.diags.last() == (DiagnosticView {
                message: msg_cant_find(name_of(src, r.ident)),
                span: r.span,
            })
        }),
{
    law_no_closures(src, st, f, r.ident);
    let base = bind_params_spec(
        src,
        st,
        f.params@,
        flatten_functions(st.scopes),
        f.params.len() as nat,
    ).2;
    let child = BindState { scopes: seq![base], diags: Seq::empty() };
    let inner = BindState { scopes: child.scopes.push(Map::empty()), diags: child.diags };
    assert(declare_spec(inner, *f.body.contents) == inner);
    reveal_with_fuel(stack_lookup, 3);
    assert(inner.scopes.drop_last() =~= seq![base]);
    assert(stack_lookup(inner.scopes, r.ident) is None);
    let child1 = bind_block_spec(src, child, f.body).1;
    assert(child1.diags =~= seq![DiagnosticView { message: msg_cant_find(name_of(src, r.ident)), span: r.span }]);
}

/// Binding the parameters keeps every entry of the base scope whose
/// name is not a parameter.
proof fn lemma_params_keep_entry(
    src: Seq<Seq<char>>,
    st: BindState,
    ps: Seq<TypedId>,
    base: Map<Ident, SymbolView>,
    k: nat,
    x: Ident,
)
    requires
        base.contains_key(x),
        forall|j: int| 0 <= j < ps.len() ==> (#[trigger] ps[j]).id != x,
    ensures
        bind_params_spec(src, st, ps, base, k).2.contains_key(x),
        bind_params_spec(src, st, ps, base, k).2[x] == base[x],
    decreases k,
{
    if k > 0 && k <= ps.len() {
        lemma_params_keep_entry(src, st, ps, base, (k - 1) as nat, x);
        assert(ps[k - 1].id != x);
    }
}

/// Mutual recursion, as a result: a function whose body calls, with no
/// arguments, a function visible in the flattened scope (as a sibling is,
/// by `law_siblings_visible_in_bodies`) and taking no parameters, binds
/// the call to that function's return type, and its body reports
/// nothing.
pub proof fn law_sibling_call_binds(
    src: Seq<Seq<char>>,
    st: BindState,
    f: FunctionExpression,
    c: CallExpression,
    g: IdentifierExpression,
    ret: Typ,
)
    requires
        *f.body.contents == Expression::Call(c),
        *c.callee == Expression::Identifier(g),
        c.arguments.len() == 0,
        flatten_functions(st.scopes).contains_key(g.ident),
        flatten_functions(st.scopes)[g.ident] == SymbolView::Function(Seq::empty(), ret),
        forall|j: int| 0 <= j < f.params.len() ==> (#[trigger] f.params@[j]).id != g.ident,
    ensures
        ({
            let (bound, after) = bind_function_spec(src, st, f);
            let (_params, st1, _base, _seen) = bind_params_spec(
                src,
                st,
                f.params@,
                flatten_functions(st.scopes),
                f.params.len() as nat,
            );
            &&& bound.kind matches SemKind::Function(_, _, _, body) && body.typ == Some(ret)
                && body.kind is Call
            &&& after.diags == bind_type_spec(st1, f.return_type).1.diags
        }),
{
    let base = bind_params_spec(
        src,
        st,
        f.params@,
        flatten_functions(st.scopes),
        f.params.len() as nat,
    ).2;
    lemma_params_keep_entry(
        src,
        st,
        f.params@,
        flatten_functions(st.scopes),
        f.params.len() as nat,
        g.ident,
    );
    let child = BindState { scopes: seq![base], diags: Seq::empty() };
    let inner = BindState { scopes: child.scopes.push(Map::empty()), diags: child.diags };
    assert(declare_spec(inner, *f.body.contents) == inner);
    reveal_with_fuel(stack_lookup, 3);
    assert(inner.scopes.drop_last() =~= seq![base]);
    assert(stack_lookup(inner.scopes, g.ident) == Some(SymbolView::Function(Seq::empty(), ret)));
    assert(bind_spec(src, inner, *f.body.contents) == bind_call_spec(src, inner, c));
    assert(bind_spec(src, inner, *c.callee) == bind_identifier_spec(src, inner, g));
    let child1 = bind_block_spec(src, child, f.body).1;
    assert(child1.diags =~= Seq::<DiagnosticView>::empty());
}

} // verus!
