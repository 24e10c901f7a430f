//! Expression Binder
//!
//! Walks a syntax tree and binds each part of it to produce the
//! semantic tree.
//!
//! At any given level the bind has two steps. First the expressions
//! are walked to declare the items that must be visible before they
//! are defined, so that functions can be mutually recursive. Then a
//! second walk binds each expression, resolving names and types. The
//! two steps are the `declare_*` and the `bind_*` methods.
//!
//! A bind always produces a tree. Parts that cannot be bound become
//! `ExpressionKind::Error` nodes, and types that cannot be resolved
//! become `Typ::Error`; each such failure is reported as a diagnostic.
use vstd::prelude::*;
use vstd::string::*;

use crate::diag::{diags_view, Diagnostic};
use crate::model::{
    bind_assign_spec, bind_block_spec, bind_call_spec, bind_declaration_spec, bind_function_spec,
    bind_identifier_spec, bind_if_else_spec, bind_index_spec, bind_infix_spec, bind_list_spec,
    bind_literal_spec, bind_loop_spec, bind_params_spec, bind_prefix_spec, bind_print_spec,
    bind_sequence_spec, bind_spec, bind_tree_spec, bind_type_spec, bind_args_spec, declare_function_spec,
    declare_list_spec, declare_spec, keeps_outer, take_spec, lemma_supported_list, or_unknown,
    param_types_spec, params_supported, report, type_ref_supported, types_supported,
    types_supported_list, BindState,
};
use crate::operators::find_builtin_op;
use crate::scope::{add_builtin_types, flatten_functions, Scope, ScopeStack, Symbol};
use crate::syntax;
use crate::syntax::{
    BlockBody, CallExpression, DeclarationExpression, FunctionExpression, IdentifierExpression,
    IfElseExpression, IndexExpression, InfixOp, InfixOperatorExpression, LiteralExpression,
    LoopExpression, LoopKind, PrefixExpression, PrefixOp, PrintExpression, TypeRef, VarStyle,
};
use crate::text::{Ident, SourceText, Span};
use crate::tree::{
    lemma_sem_view_list, sem, sem_views, SemKind, Expression, ExpressionKind, FnDecl, VarDecl,
};
use crate::types::{BuiltinType, Typ};

verus! {

/// `a`, `b` and `c` joined
fn join3(a: &str, b: &str, c: &str) -> (r: String)
    ensures
        r@ == a@ + b@ + c@,
{
    let mut r = String::from_str(a);
    r.append(b);
    r.append(c);
    r
}

/// `a` to `e` joined
fn join5(a: &str, b: &str, c: &str, d: &str, e: &str) -> (r: String)
    ensures
        r@ == a@ + b@ + c@ + d@ + e@,
{
    let mut r = join3(a, b, c);
    r.append(d);
    r.append(e);
    r
}

/// Whether `id` is among `seen`
fn contains_ident(seen: &Vec<Ident>, id: Ident) -> (r: bool)
    ensures
        r == seen@.contains(id),
{
    let mut i: usize = 0;
    while i < seen.len()
        invariant
            i <= seen.len(),
            forall|j: int| 0 <= j < i ==> seen@[j] != id,
        decreases seen.len() - i,
    {
        if seen[i] == id {
            assert(seen@[i as int] == id);
            return true;
        }
        i = i + 1;
    }
    false
}

/// A type, or `Unknown` where none is known
fn typ_or_unknown(t: Option<Typ>) -> (r: Typ)
    ensures
        r == or_unknown(t),
{
    match t {
        Some(t) => t,
        None => Typ::Unknown,
    }
}

/// Holds the scopes and the diagnostics of one bind
pub struct Binder {
    /// The current scopes
    scopes: ScopeStack,
    /// The diagnostics of the current bind
    diagnostics: Vec<Diagnostic>,
}

impl View for Binder {
    type V = BindState;

    closed spec fn view(&self) -> BindState {
        BindState { scopes: self.scopes@, diags: diags_view(self.diagnostics@) }
    }
}

impl Binder {
    /// The scope stack is well formed and never empty.
    pub closed spec fn wf(&self) -> bool {
        self.scopes.wf() && self.scopes@.len() > 0
    }

    /// Create a binder whose only scope is `scope`
    pub fn new(scope: Scope) -> (r: Binder)
        requires
            scope.wf(),
        ensures
            r.wf(),
            r@ == (BindState { scopes: seq![scope@], diags: Seq::empty() }),
    {
        let r = Binder { scopes: ScopeStack::new(scope), diagnostics: Vec::new() };
        assert(r@.diags =~= Seq::empty());
        r
    }

    /// Report a diagnostic
    fn report(&mut self, message: String, span: Span)
        requires
            old(self).wf(),
        ensures
            final(self).wf(),
            final(self)@ == report(old(self)@, message@, span),
    {
        self.diagnostics.push(Diagnostic::new(message, span));
        assert(self@.diags =~= old(self)@.diags.push(crate::diag::DiagnosticView { message: message@, span }));
    }

    /// Bind a whole tree
    ///
    /// The builtin types are declared in the current scope, then the
    /// functions at the top level of the tree are declared, and then
    /// the tree is bound.
    pub fn bind_tree(&mut self, source: &mut SourceText, tree: &syntax::Expression) -> (r: Expression)
        requires
            old(self).wf(),
            old(source).wf(),
            types_supported(*tree),
        ensures
            final(self).wf(),
            final(source).wf(),
            (r@, final(self)@, final(source)@) == bind_tree_spec(old(source)@, old(self)@, *tree),
    {
        add_builtin_types(self.scopes.current_mut(), source);
        self.declare_expression(tree);
        self.bind_expression(tree, source)
    }

    /// Declare the items of `expression` that must be visible in this
    /// scope before it is bound
    ///
    /// Functions at the top level, through sequences and groupings, are
    /// declared; bodies are not entered.
    pub fn declare_expression(&mut self, expression: &syntax::Expression)
        requires
            old(self).wf(),
            types_supported(*expression),
        ensures
            final(self).wf(),
            final(self)@ == declare_spec(old(self)@, *expression),
            keeps_outer(old(self)@, final(self)@),
        decreases expression,
    {
        match expression {
            syntax::Expression::Function(func) => self.declare_function(func),
            syntax::Expression::Sequence(seq) => {
                proof {
                    lemma_supported_list(*seq, seq.len() as nat);
                }
                let ghost st0 = self@;
                let mut i: usize = 0;
                while i < seq.len()
                    invariant
                        *expression is Sequence,
                        expression->Sequence_0 == *seq,
                        i <= seq.len(),
                        self.wf(),
                        forall|j: int| 0 <= j < seq.len() ==> types_supported(#[trigger] seq@[j]),
                        self@ == declare_list_spec(st0, *seq, i as nat),
                        keeps_outer(st0, self@),
                    decreases seq.len() - i,
                {
                    proof {
                        assert(decreases_to!(*expression => expression->Sequence_0));
                        assert(decreases_to!(*seq => seq@[i as int]));
                    }
                    self.declare_expression(&seq[i]);
                    i = i + 1;
                }
            },
            syntax::Expression::Grouping(group) => self.declare_expression(&group.inner),
            _ => {},
        }
    }

    /// Declare a function: its signature is entered in the current
    /// scope, so that its siblings can call it before it is bound
    pub fn declare_function(&mut self, func: &FunctionExpression)
        requires
            old(self).wf(),
            params_supported(func.params@),
            type_ref_supported(func.return_type),
        ensures
            final(self).wf(),
            final(self)@ == declare_function_spec(old(self)@, *func),
            keeps_outer(old(self)@, final(self)@),
    {
        let ghost st0 = self@;
        let mut param_tys: Vec<Typ> = Vec::new();
        let mut i: usize = 0;
        while i < func.params.len()
            invariant
                i <= func.params.len(),
                self.wf(),
                params_supported(func.params@),
                (param_tys@, self@) == param_types_spec(st0, func.params@, i as nat),
                self@.scopes == st0.scopes,
            decreases func.params.len() - i,
        {
            let p = func.params[i];
            assert(p == func.params@[i as int]);
            let t = match p.typ {
                Some(t) => self.bind_type(&t),
                None => Typ::Error,
            };
            param_tys.push(t);
            i = i + 1;
        }
        let ret_ty = self.bind_type(&func.return_type);
        let ghost before = self.scopes@;
        self.scopes.current_mut().try_declare(func.identifier, Symbol::Function(param_tys, ret_ty));
        assert(self@.scopes.drop_last() =~= before.drop_last());
    }

    /// Bind a single expression, by its kind
    pub fn bind_expression(&mut self, expression: &syntax::Expression, source: &SourceText) -> (r:
        Expression)
        requires
            old(self).wf(),
            types_supported(*expression),
        ensures
            final(self).wf(),
            (r@, final(self)@) == bind_spec(source@, old(self)@, *expression),
            keeps_outer(old(self)@, final(self)@),
        decreases expression,
    {
        match expression {
            syntax::Expression::Identifier(ident) => self.bind_identifier(ident, source),
            syntax::Expression::Literal(lit) => self.bind_literal(lit),
            syntax::Expression::Prefix(pref) => self.bind_prefix(pref, source),
            syntax::Expression::Infix(infix) => self.bind_infix(infix, source),
            syntax::Expression::Call(call) => self.bind_call(call, source),
            syntax::Expression::Index(index) => self.bind_index(index, source),
            syntax::Expression::IfThenElse(if_else) => self.bind_if_else(if_else, source),
            syntax::Expression::Function(func) => self.bind_function(func, source),
            syntax::Expression::Loop(loop_expr) => self.bind_loop(loop_expr, source),
            syntax::Expression::Sequence(exprs) => self.bind_sequence(exprs, source),
            syntax::Expression::Print(print) => self.bind_print(print, source),
            syntax::Expression::Declaration(decl) => self.bind_declaration(decl, source),
            syntax::Expression::Grouping(group) => self.bind_expression(&group.inner, source),
        }
    }

    /// Bind a reference to an identifier
    ///
    /// A name with no symbol in scope is reported.
    pub fn bind_identifier(&mut self, ident: &IdentifierExpression, source: &SourceText) -> (r:
        Expression)
        requires
            old(self).wf(),
        ensures
            final(self).wf(),
            (r@, final(self)@) == bind_identifier_spec(source@, old(self)@, *ident),
            keeps_outer(old(self)@, final(self)@),
    {
        let id_str = source.interned_value(ident.ident);
        match self.scopes.lookup(ident.ident) {
            Some(sym) => {
                let typ = match sym {
                    Symbol::Variable(_, t) => Some(t),
                    Symbol::Function(..) => Some(Typ::Function(ident.ident)),
                    Symbol::Type(..) => None,
                };
                Expression::new(ExpressionKind::Identifier(id_str), typ)
            },
            None => {
                self.report(join3("Can't find '", id_str.as_str(), "' in this scope"), ident.span);
                Expression::error()
            },
        }
    }

    /// Bind a literal value
    pub fn bind_literal(&mut self, lit: &LiteralExpression) -> (r: Expression)
        requires
            old(self).wf(),
        ensures
            final(self).wf(),
            (r@, final(self)@) == bind_literal_spec(old(self)@, *lit),
            keeps_outer(old(self)@, final(self)@),
    {
        let typ = Typ::Builtin(
            match lit.value {
                syntax::Constant::Bool(_) => BuiltinType::Bool,
                syntax::Constant::Number(_) => BuiltinType::Number,
                syntax::Constant::String(_) => BuiltinType::String,
            },
        );
        Expression::new(ExpressionKind::Literal(lit.value.duplicate()), Some(typ))
    }

    /// Bind a prefix operation
    pub fn bind_prefix(&mut self, pref: &PrefixExpression, source: &SourceText) -> (r: Expression)
        requires
            old(self).wf(),
            types_supported(*pref.inner),
        ensures
            final(self).wf(),
            (r@, final(self)@) == bind_prefix_spec(source@, old(self)@, *pref),
            keeps_outer(old(self)@, final(self)@),
        decreases pref,
    {
        let bound_inner = self.bind_expression(&pref.inner, source);
        let typ = bound_inner.typ;
        Expression::new(ExpressionKind::Prefix(pref.op, Box::new(bound_inner)), typ)
    }

    /// Bind an infix operator expression
    ///
    /// Assignments are bound by `bind_assign`; other operators are
    /// checked against the builtin operator table.
    pub fn bind_infix(&mut self, infix: &InfixOperatorExpression, source: &SourceText) -> (r:
        Expression)
        requires
            old(self).wf(),
            types_supported(*infix.left),
            types_supported(*infix.right),
        ensures
            final(self).wf(),
            (r@, final(self)@) == bind_infix_spec(source@, old(self)@, *infix),
            keeps_outer(old(self)@, final(self)@),
        decreases infix, 1nat,
    {
        if infix.op == InfixOp::Assign {
            match &*infix.left {
                syntax::Expression::Identifier(id) => self.bind_assign(id, infix, source),
                _ => {
                    let span = infix.left.span();
                    self.report(
                        String::from_str("left hand side of an assignment must be an identifier"),
                        span,
                    );
                    Expression::error()
                },
            }
        } else {
            let lhs = self.bind_expression(&infix.left, source);
            let rhs = self.bind_expression(&infix.right, source);
            let lhs_typ = typ_or_unknown(lhs.typ);
            let rhs_typ = typ_or_unknown(rhs.typ);
            match find_builtin_op(infix.op, lhs_typ, rhs_typ) {
                Some(operator) => Expression::new(
                    ExpressionKind::Infix(Box::new(lhs), infix.op, Box::new(rhs)),
                    Some(operator.result_typ),
                ),
                None => {
                    let name = infix.op.name();
                    let span = Span::enclosing(infix.left.span(), infix.right.span());
                    self.report(
                        join3("Use of operator `", name.as_str(), "` with invalid arguments"),
                        span,
                    );
                    Expression::error()
                },
            }
        }
    }

    /// Bind the assignment of the right hand side of `infix` to `id`
    ///
    /// The target must be a variable. Assigning to an immutable one is
    /// reported but still bound; the result has the variable's type.
    fn bind_assign(
        &mut self,
        id: &IdentifierExpression,
        infix: &InfixOperatorExpression,
        source: &SourceText,
    ) -> (r: Expression)
        requires
            old(self).wf(),
            types_supported(*infix.right),
        ensures
            final(self).wf(),
            (r@, final(self)@) == bind_assign_spec(source@, old(self)@, *id, *infix),
            keeps_outer(old(self)@, final(self)@),
        decreases infix, 0nat,
    {
        let name = source.interned_value(id.ident);
        match self.scopes.lookup(id.ident) {
            Some(Symbol::Variable(style, typ)) => {
                if style != VarStyle::Mutable {
                    self.report(join3("Can't assign to '", name.as_str(), "', it isn't mutable"), infix.op_span);
                }
                let rhs = self.bind_expression(&infix.right, source);
                let mismatch = match rhs.typ {
                    Some(t) => t != typ,
                    None => false,
                };
                if mismatch {
                    self.report(join3("Type mismatch in assignment to '", name.as_str(), "' "), infix.op_span);
                }
                Expression::new(ExpressionKind::Assignment(name, Box::new(rhs)), Some(typ))
            },
            Some(_) => {
                self.report(join3("Can't write to '", name.as_str(), "' as it isn't a variable."), id.span);
                Expression::error()
            },
            None => {
                self.report(join3("Can't assign to '", name.as_str(), "'"), id.span);
                Expression::error()
            },
        }
    }

    /// Bind a function call
    ///
    /// The callee must be a function. Too few and too many arguments are
    /// reported apart; each argument is checked against its parameter.
    pub fn bind_call(&mut self, call: &CallExpression, source: &SourceText) -> (r: Expression)
        requires
            old(self).wf(),
            types_supported(*call.callee),
            types_supported_list(call.arguments, call.arguments.len() as nat),
        ensures
            final(self).wf(),
            (r@, final(self)@) == bind_call_spec(source@, old(self)@, *call),
            keeps_outer(old(self)@, final(self)@),
        decreases call,
    {
        let callee = self.bind_expression(&call.callee, source);
        let signature = match callee.typ {
            Some(Typ::Function(id)) => match self.scopes.lookup(id) {
                Some(Symbol::Function(param_tys, ret_ty)) => Some((param_tys, ret_ty)),
                _ => None,
            },
            _ => None,
        };
        match signature {
            Some((param_tys, ret_ty)) => {
                let param_count = param_tys.len();
                let arg_count = call.arguments.len();
                if arg_count < param_count {
                    self.report(
                        String::from_str("Too few arguments to call"),
                        Span::enclosing(call.open_paren, call.close_paren),
                    );
                }
                if arg_count > param_count {
                    let start = call.arguments[param_count].span().start;
                    self.report(
                        String::from_str("Too many arguments to call"),
                        Span::new(start, call.close_paren.start),
                    );
                }
                let k = if arg_count < param_count {
                    arg_count
                } else {
                    param_count
                };
                proof {
                    lemma_supported_list(call.arguments, call.arguments.len() as nat);
                }
                let ghost st3 = self@;
                let mut args: Vec<Expression> = Vec::new();
                let mut i: usize = 0;
                while i < k
                    invariant
                        k <= arg_count,
                        k <= param_count,
                        arg_count == call.arguments.len(),
                        param_count == param_tys.len(),
                        i <= k,
                        self.wf(),
                        forall|j: int|
                            0 <= j < call.arguments.len() ==> types_supported(
                                #[trigger] call.arguments@[j],
                            ),
                        (sem_views(args@), self@) == bind_args_spec(
                            source@,
                            st3,
                            *call,
                            param_tys@,
                            i as nat,
                        ),
                        keeps_outer(st3, self@),
                    decreases k - i,
                {
                    let arg = &call.arguments[i];
                    let bound_arg = self.bind_expression(arg, source);
                    let param = param_tys[i];
                    let matches_param = match bound_arg.typ {
                        Some(t) => t == param,
                        None => false,
                    };
                    if !matches_param {
                        let expected = param.name();
                        let found = typ_or_unknown(bound_arg.typ).name();
                        let span = arg.span();
                        self.report(
                            join5(
                                "Invalid argument. Expected '",
                                expected.as_str(),
                                "' but found '",
                                found.as_str(),
                                "'",
                            ),
                            span,
                        );
                    }
                    let ghost before = args@;
                    args.push(bound_arg);
                    proof {
                        assert(args@ == before.push(bound_arg));
                        assert(sem_views(args@) =~= sem_views(before).push(bound_arg@));
                    }
                    i = i + 1;
                }
                proof {
                    lemma_sem_view_list(args, args.len() as nat);
                    assert(args@.take(args.len() as int) =~= args@);
                }
                Expression::new(ExpressionKind::Call(Box::new(callee), args), Some(ret_ty))
            },
            None => {
                let span = call.callee.span();
                self.report(String::from_str("Called item is not a function"), span);
                Expression::error()
            },
        }
    }

    /// Bind an index expression
    ///
    /// Both operands are bound, so that their own diagnostics surface,
    /// but indexing is not supported and is always reported.
    pub fn bind_index(&mut self, index: &IndexExpression, source: &SourceText) -> (r: Expression)
        requires
            old(self).wf(),
            types_supported(*index.indexee),
            types_supported(*index.index),
        ensures
            final(self).wf(),
            (r@, final(self)@) == bind_index_spec(source@, old(self)@, *index),
            keeps_outer(old(self)@, final(self)@),
        decreases index,
    {
        let _indexee = self.bind_expression(&index.indexee, source);
        let _index = self.bind_expression(&index.index, source);
        self.report(
            String::from_str("Index expressions are not yet supported"),
            Span::enclosing(index.open_bracket, index.close_bracket),
        );
        Expression::error()
    }

    /// Bind an `if then else` expression
    ///
    /// The condition must be `Bool` and the branches must agree; the
    /// result has the type of the `then` branch.
    pub fn bind_if_else(&mut self, if_else: &IfElseExpression, source: &SourceText) -> (r:
        Expression)
        requires
            old(self).wf(),
            types_supported(*if_else.cond),
            types_supported(*if_else.if_true),
            types_supported(*if_else.if_false),
        ensures
            final(self).wf(),
            (r@, final(self)@) == bind_if_else_spec(source@, old(self)@, *if_else),
            keeps_outer(old(self)@, final(self)@),
        decreases if_else,
    {
        let cond = self.bind_expression(&if_else.cond, source);
        let if_true = self.bind_expression(&if_else.if_true, source);
        let if_false = self.bind_expression(&if_else.if_false, source);
        let cond_ty = typ_or_unknown(cond.typ);
        if cond_ty != Typ::Builtin(BuiltinType::Bool) {
            let name = cond_ty.name();
            let span = if_else.cond.span();
            self.report(
                join3("Condition expression should be 'Bool' but is '", name.as_str(), "'"),
                span,
            );
        }
        let typ = if_true.typ;
        let true_typ = typ_or_unknown(if_true.typ);
        let false_typ = typ_or_unknown(if_false.typ);
        if true_typ != false_typ {
            let a = true_typ.name();
            let b = false_typ.name();
            let span = Span::enclosing(if_else.if_true.span(), if_else.if_false.span());
            self.report(
                join5(
                    "If and else have mismatched types. '",
                    a.as_str(),
                    "' and '",
                    b.as_str(),
                    "'",
                ),
                span,
            );
        }
        Expression::new(
            ExpressionKind::IfThenElse(Box::new(cond), Box::new(if_true), Box::new(if_false)),
            typ,
        )
    }

    /// Bind a function definition
    ///
    /// The body is bound by a binder of its own. Its base scope holds
    /// the function declarations visible here and the parameters, but
    /// none of the enclosing variables. Its diagnostics are added to
    /// this binder's.
    pub fn bind_function(&mut self, func: &FunctionExpression, source: &SourceText) -> (r:
        Expression)
        requires
            old(self).wf(),
            params_supported(func.params@),
            type_ref_supported(func.return_type),
            types_supported(*func.body.contents),
        ensures
            final(self).wf(),
            (r@, final(self)@) == bind_function_spec(source@, old(self)@, *func),
            keeps_outer(old(self)@, final(self)@),
        decreases func,
    {
        let ghost st0 = self@;
        let mut parent_scope = Scope::new();
        self.scopes.flatten_decls_into(&mut parent_scope);
        assert(parent_scope@ =~= flatten_functions(st0.scopes));
        let mut seen_idents: Vec<Ident> = Vec::new();
        let mut params: Vec<VarDecl> = Vec::new();
        let mut i: usize = 0;
        while i < func.params.len()
            invariant
                i <= func.params.len(),
                self.wf(),
                parent_scope.wf(),
                params_supported(func.params@),
                (params@.map_values(|p: VarDecl| p@), self@, parent_scope@, seen_idents@)
                    == bind_params_spec(
                    source@,
                    st0,
                    func.params@,
                    flatten_functions(st0.scopes),
                    i as nat,
                ),
                self@.scopes == st0.scopes,
            decreases func.params.len() - i,
        {
            let p = func.params[i];
            assert(p == func.params@[i as int]);
            let typ = match p.typ {
                Some(anno) => self.bind_type(&anno),
                None => {
                    let name = source.interned_value(p.id);
                    self.report(join3("Parameter '", name.as_str(), "' missing type"), p.id_span);
                    Typ::Error
                },
            };
            if contains_ident(&seen_idents, p.id) {
                let name = source.interned_value(p.id);
                self.report(join3("Duplicate function parameter '", name.as_str(), "'"), p.id_span);
            }
            seen_idents.push(p.id);
            parent_scope.try_declare(p.id, Symbol::Variable(VarStyle::Mutable, typ));
            let decl = VarDecl { ident: source.interned_value(p.id), ty: Some(typ) };
            let ghost before = params@;
            params.push(decl);
            proof {
                assert(params@.map_values(|p: VarDecl| p@) =~= before.map_values(|p: VarDecl| p@).push(decl@));
            }
            i = i + 1;
        }
        let mut binder = Binder::new(parent_scope);
        let bound_body = binder.bind_block(&func.body, source);
        let ret_ty = self.bind_type(&func.return_type);
        let mut child_diags = binder.take_diagnostics();
        let ghost before = self.diagnostics@;
        let ghost moved = child_diags@;
        self.diagnostics.append(&mut child_diags);
        proof {
            assert(self@.diags =~= diags_view(before) + diags_view(moved));
        }
        Expression::new(
            ExpressionKind::Function(
                FnDecl {
                    ident: source.interned_value(func.identifier),
                    ret_ty,
                    params,
                    body: Box::new(bound_body),
                },
            ),
            Some(Typ::Error),
        )
    }

    /// Bind a loop
    ///
    /// `until C` binds as `while not C`. A loop has the unit type.
    pub fn bind_loop(&mut self, loop_expr: &LoopExpression, source: &SourceText) -> (r: Expression)
        requires
            old(self).wf(),
            types_supported(*loop_expr.condition),
            types_supported(*loop_expr.body.contents),
        ensures
            final(self).wf(),
            (r@, final(self)@) == bind_loop_spec(source@, old(self)@, *loop_expr),
            keeps_outer(old(self)@, final(self)@),
        decreases loop_expr,
    {
        let mut condition = self.bind_expression(&loop_expr.condition, source);
        let ghost bound = condition@;
        if loop_expr.kind == LoopKind::Until {
            let typ = condition.typ;
            condition = Expression::new(ExpressionKind::Prefix(PrefixOp::Not, Box::new(condition)), typ);
            assert(condition@ == sem(SemKind::Prefix(PrefixOp::Not, Box::new(bound)), bound.typ));
        }
        let body = self.bind_block(&loop_expr.body, source);
        Expression::new(ExpressionKind::Loop(Box::new(condition), Box::new(body)), Some(Typ::Unit))
    }

    /// Bind a sequence of expressions, in order, in the current scope
    ///
    /// The sequence has the type of its last element, or the unit type
    /// when it is empty.
    pub fn bind_sequence(&mut self, exprs: &Vec<syntax::Expression>, source: &SourceText) -> (r:
        Expression)
        requires
            old(self).wf(),
            types_supported_list(*exprs, exprs.len() as nat),
        ensures
            final(self).wf(),
            (r@, final(self)@) == bind_sequence_spec(source@, old(self)@, *exprs),
            keeps_outer(old(self)@, final(self)@),
        decreases exprs,
    {
        proof {
            lemma_supported_list(*exprs, exprs.len() as nat);
        }
        let ghost st0 = self@;
        let mut transformed: Vec<Expression> = Vec::new();
        let mut i: usize = 0;
        while i < exprs.len()
            invariant
                i <= exprs.len(),
                self.wf(),
                forall|j: int| 0 <= j < exprs.len() ==> types_supported(#[trigger] exprs@[j]),
                (sem_views(transformed@), self@) == bind_list_spec(source@, st0, *exprs, i as nat),
                keeps_outer(st0, self@),
            decreases exprs.len() - i,
        {
            let bound = self.bind_expression(&exprs[i], source);
            let ghost before = transformed@;
            transformed.push(bound);
            proof {
                assert(sem_views(transformed@) =~= sem_views(before).push(bound@));
            }
            i = i + 1;
        }
        let n = transformed.len();
        let typ = if n == 0 {
            Some(Typ::Unit)
        } else {
            transformed[n - 1].typ
        };
        proof {
            lemma_sem_view_list(transformed, n as nat);
            assert(transformed@.take(n as int) =~= transformed@);
        }
        Expression::new(ExpressionKind::Sequence(transformed), typ)
    }

    /// Bind a `print` expression; the printed value's type passes through
    pub fn bind_print(&mut self, print: &PrintExpression, source: &SourceText) -> (r: Expression)
        requires
            old(self).wf(),
            types_supported(*print.inner),
        ensures
            final(self).wf(),
            (r@, final(self)@) == bind_print_spec(source@, old(self)@, *print),
            keeps_outer(old(self)@, final(self)@),
        decreases print,
    {
        let bound_printee = self.bind_expression(&print.inner, source);
        let typ = bound_printee.typ;
        Expression::new(ExpressionKind::Print(Box::new(bound_printee)), typ)
    }

    /// Bind a variable declaration
    ///
    /// The initialiser is bound first, in the current scope, and the
    /// variable is declared after it. Without an annotation the type is
    /// inferred from the initialiser.
    pub fn bind_declaration(&mut self, decl: &DeclarationExpression, source: &SourceText) -> (r:
        Expression)
        requires
            old(self).wf(),
            decl.id.typ is None || type_ref_supported(decl.id.typ->0),
            types_supported(*decl.initialiser),
        ensures
            final(self).wf(),
            (r@, final(self)@) == bind_declaration_spec(source@, old(self)@, *decl),
            keeps_outer(old(self)@, final(self)@),
        decreases decl,
    {
        let decl_type = match decl.id.typ {
            Some(anno) => self.bind_type(&anno),
            None => Typ::Unknown,
        };
        let bound_initialiser = self.bind_expression(&decl.initialiser, source);
        let id = decl.id.id;
        let ty = if decl_type != Typ::Unknown {
            let mismatch = match bound_initialiser.typ {
                Some(t) => t != decl_type,
                None => false,
            };
            if mismatch {
                let name = source.interned_value(id);
                self.report(
                    join3("Initialiser doesn't match declaration type for '", name.as_str(), "'"),
                    decl.id.id_span,
                );
                Some(Typ::Error)
            } else {
                Some(decl_type)
            }
        } else {
            bound_initialiser.typ
        };
        let ghost before = self.scopes@;
        self.scopes.current_mut().try_declare(id, Symbol::Variable(decl.style, typ_or_unknown(ty)));
        assert(self@.scopes.drop_last() =~= before.drop_last());
        let is_mut = decl.style == VarStyle::Mutable;
        Expression::new(
            ExpressionKind::Declaration(
                VarDecl { ident: source.interned_value(id), ty },
                is_mut,
                Box::new(bound_initialiser),
            ),
            ty,
        )
    }

    /// Bind a block: in a new scope, the functions of its contents are
    /// declared and then the contents are bound; the scope is popped
    /// afterwards
    pub fn bind_block(&mut self, block: &BlockBody, source: &SourceText) -> (r: Expression)
        requires
            old(self).wf(),
            types_supported(*block.contents),
        ensures
            final(self).wf(),
            (r@, final(self)@) == bind_block_spec(source@, old(self)@, *block),
            final(self)@.scopes == old(self)@.scopes,
        decreases block,
    {
        self.scopes.push(Scope::new());
        self.declare_expression(&block.contents);
        let bound = self.bind_expression(&block.contents, source);
        self.scopes.pop();
        assert(self@.scopes =~= old(self)@.scopes);
        bound
    }

    /// Resolve a type reference in the current scopes
    ///
    /// `()` is the unit type; a name must refer to a type symbol, or the
    /// reference is reported and resolves to `Typ::Error`.
    pub fn bind_type(&mut self, ty_ref: &TypeRef) -> (r: Typ)
        requires
            old(self).wf(),
            type_ref_supported(*ty_ref),
        ensures
            final(self).wf(),
            (r, final(self)@) == bind_type_spec(old(self)@, *ty_ref),
            final(self)@.scopes == old(self)@.scopes,
    {
        match ty_ref {
            TypeRef::Unit(_) => Typ::Unit,
            TypeRef::Simple(id, span) => match self.scopes.lookup(*id) {
                Some(Symbol::Type(ty)) => ty,
                _ => {
                    self.report(String::from_str("Reference to undefined type"), *span);
                    Typ::Error
                },
            },
            _ => Typ::Error,
        }
    }

    /// Take the diagnostics reported so far, leaving none behind
    pub fn take_diagnostics(&mut self) -> (r: Vec<Diagnostic>)
        requires
            old(self).wf(),
        ensures
            final(self).wf(),
            (diags_view(r@), final(self)@) == take_spec(old(self)@),
    {
        let mut r: Vec<Diagnostic> = Vec::new();
        r.append(&mut self.diagnostics);
        assert(diags_view(r@) =~= old(self)@.diags);
        assert(self@.diags =~= Seq::empty());
        r
    }
}

} // verus!
