use ullage::binder::Binder;
use ullage::diag::Diagnostic;
use ullage::scope::{Scope, ScopeStack, Symbol};
use ullage::syntax::{
    BlockBody, CallExpression, Constant, DeclarationExpression, Expression as SyntaxExpr,
    FunctionExpression, GroupingExpression, IdentifierExpression, IfElseExpression,
    IndexExpression, InfixOp, InfixOperatorExpression, LiteralExpression, LoopExpression,
    LoopKind, PrefixOp, PrintExpression, TypeRef, TypedId, VarStyle,
};
use ullage::text::{Ident, SourceText, Span};
use ullage::tree::{Expression, ExpressionKind};
use ullage::types::{BuiltinType, Typ};

const NUMBER: Typ = Typ::Builtin(BuiltinType::Number);
const BOOL: Typ = Typ::Builtin(BuiltinType::Bool);
const STRING: Typ = Typ::Builtin(BuiltinType::String);

fn sp(start: usize, end: usize) -> Span {
    Span::new(start, end)
}

fn num(n: i64, at: usize) -> SyntaxExpr {
    SyntaxExpr::Literal(LiteralExpression { value: Constant::Number(n), span: sp(at, at + 1) })
}

fn boolean(b: bool, at: usize) -> SyntaxExpr {
    SyntaxExpr::Literal(LiteralExpression { value: Constant::Bool(b), span: sp(at, at + 4) })
}

fn string(s: &str, at: usize) -> SyntaxExpr {
    SyntaxExpr::Literal(LiteralExpression {
        value: Constant::String(s.to_string()),
        span: sp(at, at + s.len() + 2),
    })
}

fn ident(id: Ident, at: usize) -> SyntaxExpr {
    SyntaxExpr::Identifier(IdentifierExpression { ident: id, span: sp(at, at + 1) })
}

fn infix(left: SyntaxExpr, op: InfixOp, right: SyntaxExpr, at: usize) -> SyntaxExpr {
    SyntaxExpr::Infix(InfixOperatorExpression {
        left: Box::new(left),
        op,
        op_span: sp(at, at + 1),
        right: Box::new(right),
    })
}

fn call(callee: SyntaxExpr, arguments: Vec<SyntaxExpr>, open: usize, close: usize) -> SyntaxExpr {
    SyntaxExpr::Call(CallExpression {
        callee: Box::new(callee),
        open_paren: sp(open, open + 1),
        arguments,
        close_paren: sp(close, close + 1),
    })
}

fn param(id: Ident, typ: Option<TypeRef>, at: usize) -> TypedId {
    TypedId { id, id_span: sp(at, at + 1), typ }
}

fn named(id: Ident, at: usize) -> TypeRef {
    TypeRef::Simple(id, sp(at, at + 6))
}

fn func(
    id: Ident,
    params: Vec<TypedId>,
    return_type: TypeRef,
    body: SyntaxExpr,
    at: usize,
) -> SyntaxExpr {
    SyntaxExpr::Function(FunctionExpression {
        fn_span: sp(at, at + 2),
        identifier: id,
        params,
        return_type,
        body: BlockBody { contents: Box::new(body), close: sp(at + 40, at + 43) },
    })
}

fn decl(style: VarStyle, id: Ident, typ: Option<TypeRef>, init: SyntaxExpr, at: usize) -> SyntaxExpr {
    SyntaxExpr::Declaration(DeclarationExpression {
        kw_span: sp(at, at + 3),
        id: TypedId { id, id_span: sp(at + 4, at + 5), typ },
        style,
        initialiser: Box::new(init),
    })
}

fn if_else(cond: SyntaxExpr, if_true: SyntaxExpr, if_false: SyntaxExpr, at: usize) -> SyntaxExpr {
    SyntaxExpr::IfThenElse(IfElseExpression {
        if_span: sp(at, at + 2),
        cond: Box::new(cond),
        if_true: Box::new(if_true),
        if_false: Box::new(if_false),
    })
}

fn bind(source: &mut SourceText, tree: &SyntaxExpr) -> (Expression, Vec<Diagnostic>) {
    let mut binder = Binder::new(Scope::new());
    let bound = binder.bind_tree(source, tree);
    let diagnostics = binder.take_diagnostics();
    (bound, diagnostics)
}

fn messages(diagnostics: &[Diagnostic]) -> Vec<String> {
    diagnostics.iter().map(|d| d.message.clone()).collect()
}

#[test]
fn second_declare_fails_and_keeps_lookup() {
    let mut source = SourceText::new("");
    let x = source.intern("x");
    let mut scope = Scope::new();
    assert!(scope.try_declare(x, Symbol::Variable(VarStyle::Immutable, NUMBER)));
    assert!(!scope.try_declare(x, Symbol::Type(BOOL)));
    assert!(!scope.try_declare(x, Symbol::Function(vec![NUMBER], STRING)));
    assert_eq!(Some(Symbol::Variable(VarStyle::Immutable, NUMBER)), scope.lookup(x));
}

#[test]
fn inner_scope_shadows_until_popped() {
    let mut source = SourceText::new("");
    let x = source.intern("x");
    let mut outer = Scope::new();
    outer.try_declare(x, Symbol::Variable(VarStyle::Mutable, NUMBER));
    let mut scopes = ScopeStack::new(outer);
    let mut inner = Scope::new();
    inner.try_declare(x, Symbol::Variable(VarStyle::Mutable, BOOL));
    scopes.push(inner);
    assert_eq!(Some(Symbol::Variable(VarStyle::Mutable, BOOL)), scopes.lookup(x));
    let popped = scopes.pop();
    assert!(popped.is_some());
    assert_eq!(Some(Symbol::Variable(VarStyle::Mutable, NUMBER)), scopes.lookup(x));
}

#[test]
fn pop_on_empty_stack_returns_nothing() {
    let mut scopes = ScopeStack::new(Scope::new());
    assert!(scopes.pop().is_some());
    assert!(scopes.pop().is_none());
}

#[test]
fn flatten_keeps_only_functions_innermost_first() {
    let mut source = SourceText::new("");
    let f = source.intern("f");
    let g = source.intern("g");
    let v = source.intern("v");
    let mut outer = Scope::new();
    outer.try_declare(f, Symbol::Function(vec![], NUMBER));
    outer.try_declare(g, Symbol::Function(vec![], STRING));
    outer.try_declare(v, Symbol::Variable(VarStyle::Mutable, NUMBER));
    let mut scopes = ScopeStack::new(outer);
    let mut inner = Scope::new();
    inner.try_declare(f, Symbol::Function(vec![BOOL], BOOL));
    inner.try_declare(g, Symbol::Variable(VarStyle::Mutable, BOOL));
    scopes.push(inner);

    let mut target = Scope::new();
    scopes.flatten_decls_into(&mut target);
    assert_eq!(Some(Symbol::Function(vec![BOOL], BOOL)), target.lookup(f));
    assert_eq!(Some(Symbol::Function(vec![], STRING)), target.lookup(g));
    assert_eq!(None, target.lookup(v));
}

#[test]
fn let_sum_is_a_number_declaration() {
    let mut source = SourceText::new("let x = 1 + 2");
    let x = source.intern("x");
    let tree = decl(VarStyle::Immutable, x, None, infix(num(1, 8), InfixOp::Add, num(2, 12), 10), 0);
    let (bound, diagnostics) = bind(&mut source, &tree);
    assert!(diagnostics.is_empty());
    assert_eq!(Some(NUMBER), bound.typ);
    match bound.kind {
        ExpressionKind::Declaration(var, is_mut, init) => {
            assert_eq!("x", var.ident);
            assert_eq!(Some(NUMBER), var.ty);
            assert!(!is_mut);
            assert_eq!(Some(NUMBER), init.typ);
        }
        other => panic!("expected a declaration, got {:?}", other),
    }
}

#[test]
fn unknown_identifier_is_reported() {
    let mut source = SourceText::new("y");
    let y = source.intern("y");
    let (bound, diagnostics) = bind(&mut source, &ident(y, 0));
    assert_eq!(vec!["Can't find 'y' in this scope".to_string()], messages(&diagnostics));
    assert_eq!(sp(0, 1), diagnostics[0].span);
    assert_eq!(ExpressionKind::Error, bound.kind);
    assert_eq!(None, bound.typ);
}

#[test]
fn sibling_functions_call_each_other() {
    let mut source = SourceText::new("fn a(): Number = b()\nfn b(): Number = a()");
    let a = source.intern("a");
    let b = source.intern("b");
    let number = source.intern("Number");
    let tree = SyntaxExpr::Sequence(vec![
        func(a, vec![], named(number, 8), call(ident(b, 17), vec![], 18, 19), 0),
        func(b, vec![], named(number, 29), call(ident(a, 38), vec![], 39, 40), 21),
    ]);
    let (bound, diagnostics) = bind(&mut source, &tree);
    assert!(diagnostics.is_empty(), "{:?}", messages(&diagnostics));
    match bound.kind {
        ExpressionKind::Sequence(items) => {
            assert_eq!(2, items.len());
            for item in items {
                assert_eq!(Some(Typ::Error), item.typ);
                match item.kind {
                    ExpressionKind::Function(decl) => {
                        assert_eq!(NUMBER, decl.ret_ty);
                        assert_eq!(Some(NUMBER), decl.body.typ);
                    }
                    other => panic!("expected a function, got {:?}", other),
                }
            }
        }
        other => panic!("expected a sequence, got {:?}", other),
    }
}

#[test]
fn enclosing_variable_is_not_visible_in_function() {
    let mut source = SourceText::new("");
    let x = source.intern("x");
    let f = source.intern("f");
    let g = source.intern("g");
    let number = source.intern("Number");
    let tree = SyntaxExpr::Sequence(vec![
        decl(VarStyle::Immutable, x, None, num(1, 8), 0),
        func(f, vec![], named(number, 20), ident(x, 30), 10),
        func(g, vec![], named(number, 60), call(ident(f, 70), vec![], 71, 72), 50),
    ]);
    let (_bound, diagnostics) = bind(&mut source, &tree);
    assert_eq!(vec!["Can't find 'x' in this scope".to_string()], messages(&diagnostics));
    assert_eq!(sp(30, 31), diagnostics[0].span);
}

#[test]
fn assignment_to_immutable_still_binds() {
    let mut source = SourceText::new("");
    let x = source.intern("x");
    let tree = SyntaxExpr::Sequence(vec![
        decl(VarStyle::Immutable, x, None, num(1, 8), 0),
        infix(ident(x, 10), InfixOp::Assign, num(5, 14), 12),
    ]);
    let (bound, diagnostics) = bind(&mut source, &tree);
    assert_eq!(vec!["Can't assign to 'x', it isn't mutable".to_string()], messages(&diagnostics));
    assert_eq!(sp(12, 13), diagnostics[0].span);
    match bound.kind {
        ExpressionKind::Sequence(items) => {
            let last = &items[1];
            assert_eq!(Some(NUMBER), last.typ);
            assert!(matches!(last.kind, ExpressionKind::Assignment(ref name, _) if name == "x"));
        }
        other => panic!("expected a sequence, got {:?}", other),
    }
}

#[test]
fn too_many_arguments_spans_from_the_surplus() {
    let mut source = SourceText::new("");
    let f = source.intern("f");
    let a = source.intern("a");
    let b = source.intern("b");
    let number = source.intern("Number");
    let tree = SyntaxExpr::Sequence(vec![
        func(
            f,
            vec![param(a, Some(named(number, 5)), 3), param(b, Some(named(number, 15)), 13)],
            named(number, 25),
            ident(a, 35),
            0,
        ),
        call(ident(f, 100), vec![num(1, 102), num(2, 105), num(3, 108)], 101, 109),
    ]);
    let (bound, diagnostics) = bind(&mut source, &tree);
    assert_eq!(vec!["Too many arguments to call".to_string()], messages(&diagnostics));
    assert_eq!(sp(108, 109), diagnostics[0].span);
    match bound.kind {
        ExpressionKind::Sequence(items) => {
            assert_eq!(Some(NUMBER), items[1].typ);
            match &items[1].kind {
                ExpressionKind::Call(_, args) => assert_eq!(2, args.len()),
                other => panic!("expected a call, got {:?}", other),
            }
        }
        other => panic!("expected a sequence, got {:?}", other),
    }
}

#[test]
fn too_few_arguments_spans_the_parens() {
    let mut source = SourceText::new("");
    let f = source.intern("f");
    let a = source.intern("a");
    let number = source.intern("Number");
    let tree = SyntaxExpr::Sequence(vec![
        func(f, vec![param(a, Some(named(number, 5)), 3)], named(number, 25), ident(a, 35), 0),
        call(ident(f, 100), vec![], 101, 102),
    ]);
    let (_bound, diagnostics) = bind(&mut source, &tree);
    assert_eq!(vec!["Too few arguments to call".to_string()], messages(&diagnostics));
    assert_eq!(sp(101, 103), diagnostics[0].span);
}

#[test]
fn argument_type_mismatch_is_reported() {
    let mut source = SourceText::new("");
    let f = source.intern("f");
    let a = source.intern("a");
    let number = source.intern("Number");
    let tree = SyntaxExpr::Sequence(vec![
        func(f, vec![param(a, Some(named(number, 5)), 3)], named(number, 25), ident(a, 35), 0),
        call(ident(f, 100), vec![string("s", 102)], 101, 105),
    ]);
    let (_bound, diagnostics) = bind(&mut source, &tree);
    assert_eq!(
        vec!["Invalid argument. Expected 'Number' but found 'String'".to_string()],
        messages(&diagnostics)
    );
    assert_eq!(sp(102, 105), diagnostics[0].span);
}

#[test]
fn if_else_mismatch_takes_then_type() {
    let mut source = SourceText::new("if true then 1 else \"s\"");
    let tree = if_else(boolean(true, 3), num(1, 13), string("s", 20), 0);
    let (bound, diagnostics) = bind(&mut source, &tree);
    assert_eq!(
        vec!["If and else have mismatched types. 'Number' and 'String'".to_string()],
        messages(&diagnostics)
    );
    assert_eq!(sp(13, 23), diagnostics[0].span);
    assert_eq!(Some(NUMBER), bound.typ);
}

#[test]
fn if_condition_must_be_bool() {
    let mut source = SourceText::new("");
    let tree = if_else(num(0, 3), num(1, 13), num(2, 20), 0);
    let (bound, diagnostics) = bind(&mut source, &tree);
    assert_eq!(
        vec!["Condition expression should be 'Bool' but is 'Number'".to_string()],
        messages(&diagnostics)
    );
    assert_eq!(sp(3, 4), diagnostics[0].span);
    assert_eq!(Some(NUMBER), bound.typ);
}

#[test]
fn binding_twice_gives_the_same_result() {
    let mut source = SourceText::new("");
    let x = source.intern("x");
    let y = source.intern("y");
    let tree = SyntaxExpr::Sequence(vec![
        decl(VarStyle::Mutable, x, None, num(1, 0), 0),
        infix(ident(x, 10), InfixOp::Add, boolean(true, 14), 12),
        ident(y, 20),
    ]);
    let (first, first_diags) = bind(&mut source, &tree);
    let (second, second_diags) = bind(&mut source, &tree);
    assert_eq!(first, second);
    assert_eq!(messages(&first_diags), messages(&second_diags));
    assert_eq!(2, first_diags.len());
    let spans: Vec<Span> = first_diags.iter().map(|d| d.span).collect();
    let again: Vec<Span> = second_diags.iter().map(|d| d.span).collect();
    assert_eq!(spans, again);
}

#[test]
fn diagnostics_drain_once() {
    let mut source = SourceText::new("");
    let y = source.intern("y");
    let mut binder = Binder::new(Scope::new());
    binder.bind_tree(&mut source, &ident(y, 0));
    assert_eq!(1, binder.take_diagnostics().len());
    assert!(binder.take_diagnostics().is_empty());
}

#[test]
fn invalid_operator_is_reported() {
    let mut source = SourceText::new("");
    let tree = infix(num(1, 0), InfixOp::Add, boolean(true, 4), 2);
    let (bound, diagnostics) = bind(&mut source, &tree);
    assert_eq!(
        vec!["Use of operator `Add` with invalid arguments".to_string()],
        messages(&diagnostics)
    );
    assert_eq!(sp(0, 8), diagnostics[0].span);
    assert_eq!(ExpressionKind::Error, bound.kind);
}

#[test]
fn operator_table_results() {
    let mut source = SourceText::new("");
    let cases = vec![
        (infix(num(1, 0), InfixOp::Sub, num(2, 4), 2), NUMBER),
        (infix(string("a", 0), InfixOp::Add, string("b", 6), 4), STRING),
        (infix(num(1, 0), InfixOp::Lt, num(2, 4), 2), BOOL),
        (infix(boolean(true, 0), InfixOp::Eq, boolean(false, 8), 5), BOOL),
    ];
    for (tree, expected) in cases {
        let (bound, diagnostics) = bind(&mut source, &tree);
        assert!(diagnostics.is_empty());
        assert_eq!(Some(expected), bound.typ);
    }
}

#[test]
fn assignment_lhs_must_be_identifier() {
    let mut source = SourceText::new("");
    let tree = infix(num(1, 0), InfixOp::Assign, num(2, 4), 2);
    let (bound, diagnostics) = bind(&mut source, &tree);
    assert_eq!(
        vec!["left hand side of an assignment must be an identifier".to_string()],
        messages(&diagnostics)
    );
    assert_eq!(sp(0, 1), diagnostics[0].span);
    assert_eq!(ExpressionKind::Error, bound.kind);
}

#[test]
fn assignment_to_non_variable_is_reported() {
    let mut source = SourceText::new("");
    let number = source.intern("Number");
    let missing = source.intern("missing");
    let (_b, diagnostics) = bind(&mut source, &infix(ident(number, 0), InfixOp::Assign, num(2, 4), 2));
    assert_eq!(vec!["Can't write to 'Number' as it isn't a variable.".to_string()], messages(&diagnostics));
    let (_b, diagnostics) = bind(&mut source, &infix(ident(missing, 0), InfixOp::Assign, num(2, 4), 2));
    assert_eq!(vec!["Can't assign to 'missing'".to_string()], messages(&diagnostics));
}

#[test]
fn assignment_type_mismatch_keeps_variable_type() {
    let mut source = SourceText::new("");
    let x = source.intern("x");
    let tree = SyntaxExpr::Sequence(vec![
        decl(VarStyle::Mutable, x, None, num(1, 8), 0),
        infix(ident(x, 10), InfixOp::Assign, string("s", 14), 12),
    ]);
    let (bound, diagnostics) = bind(&mut source, &tree);
    assert_eq!(vec!["Type mismatch in assignment to 'x' ".to_string()], messages(&diagnostics));
    assert_eq!(Some(NUMBER), bound.typ);
}

#[test]
fn calling_a_non_function_is_reported() {
    let mut source = SourceText::new("");
    let (bound, diagnostics) = bind(&mut source, &call(num(1, 0), vec![], 1, 2));
    assert_eq!(vec!["Called item is not a function".to_string()], messages(&diagnostics));
    assert_eq!(sp(0, 1), diagnostics[0].span);
    assert_eq!(ExpressionKind::Error, bound.kind);
}

#[test]
fn index_is_always_reported() {
    let mut source = SourceText::new("");
    let y = source.intern("y");
    let tree = SyntaxExpr::Index(IndexExpression {
        indexee: Box::new(ident(y, 0)),
        open_bracket: sp(1, 2),
        index: Box::new(num(0, 2)),
        close_bracket: sp(3, 4),
    });
    let (bound, diagnostics) = bind(&mut source, &tree);
    assert_eq!(
        vec![
            "Can't find 'y' in this scope".to_string(),
            "Index expressions are not yet supported".to_string()
        ],
        messages(&diagnostics)
    );
    assert_eq!(sp(1, 4), diagnostics[1].span);
    assert_eq!(ExpressionKind::Error, bound.kind);
}

#[test]
fn parameter_problems_are_reported() {
    let mut source = SourceText::new("");
    let f = source.intern("f");
    let a = source.intern("a");
    let number = source.intern("Number");
    let tree = func(
        f,
        vec![param(a, None, 3), param(a, Some(named(number, 10)), 8)],
        named(number, 25),
        ident(a, 35),
        0,
    );
    let (bound, diagnostics) = bind(&mut source, &tree);
    assert_eq!(
        vec![
            "Parameter 'a' missing type".to_string(),
            "Duplicate function parameter 'a'".to_string()
        ],
        messages(&diagnostics)
    );
    assert_eq!(sp(8, 9), diagnostics[1].span);
    match bound.kind {
        ExpressionKind::Function(decl) => {
            assert_eq!(2, decl.params.len());
            assert_eq!(Some(Typ::Error), decl.params[0].ty);
            assert_eq!(Some(Typ::Error), decl.body.typ);
        }
        other => panic!("expected a function, got {:?}", other),
    }
}

#[test]
fn initialiser_must_match_annotation() {
    let mut source = SourceText::new("");
    let x = source.intern("x");
    let number = source.intern("Number");
    let tree = decl(VarStyle::Immutable, x, Some(named(number, 6)), string("s", 15), 0);
    let (bound, diagnostics) = bind(&mut source, &tree);
    assert_eq!(
        vec!["Initialiser doesn't match declaration type for 'x'".to_string()],
        messages(&diagnostics)
    );
    assert_eq!(sp(4, 5), diagnostics[0].span);
    assert_eq!(Some(Typ::Error), bound.typ);
}

#[test]
fn undefined_type_is_reported() {
    let mut source = SourceText::new("");
    let x = source.intern("x");
    let nope = source.intern("Nope");
    let tree = decl(VarStyle::Immutable, x, Some(named(nope, 6)), num(1, 15), 0);
    let (bound, diagnostics) = bind(&mut source, &tree);
    assert_eq!(
        vec![
            "Reference to undefined type".to_string(),
            "Initialiser doesn't match declaration type for 'x'".to_string()
        ],
        messages(&diagnostics)
    );
    assert_eq!(sp(6, 12), diagnostics[0].span);
    assert_eq!(Some(Typ::Error), bound.typ);
}

#[test]
fn unit_annotation_resolves_to_unit() {
    let mut source = SourceText::new("");
    let x = source.intern("x");
    let tree = decl(VarStyle::Immutable, x, Some(TypeRef::Unit(sp(6, 8))), SyntaxExpr::Sequence(vec![]), 0);
    let (bound, diagnostics) = bind(&mut source, &tree);
    assert!(diagnostics.is_empty());
    assert_eq!(Some(Typ::Unit), bound.typ);
}

#[test]
fn empty_sequence_is_unit() {
    let mut source = SourceText::new("");
    let (bound, diagnostics) = bind(&mut source, &SyntaxExpr::Sequence(vec![]));
    assert!(diagnostics.is_empty());
    assert_eq!(ExpressionKind::Sequence(vec![]), bound.kind);
    assert_eq!(Some(Typ::Unit), bound.typ);
}

#[test]
fn until_loop_negates_condition() {
    let mut source = SourceText::new("");
    let tree = SyntaxExpr::Loop(LoopExpression {
        kind: LoopKind::Until,
        kw_span: sp(0, 5),
        condition: Box::new(boolean(false, 6)),
        body: BlockBody {
            contents: Box::new(SyntaxExpr::Print(PrintExpression {
                print_span: sp(11, 16),
                inner: Box::new(string("hi", 17)),
            })),
            close: sp(22, 25),
        },
    });
    let (bound, diagnostics) = bind(&mut source, &tree);
    assert!(diagnostics.is_empty());
    assert_eq!(Some(Typ::Unit), bound.typ);
    match bound.kind {
        ExpressionKind::Loop(cond, body) => {
            assert!(matches!(cond.kind, ExpressionKind::Prefix(PrefixOp::Not, _)));
            assert_eq!(Some(BOOL), cond.typ);
            assert_eq!(Some(STRING), body.typ);
        }
        other => panic!("expected a loop, got {:?}", other),
    }
}

#[test]
fn block_locals_do_not_leak() {
    let mut source = SourceText::new("");
    let x = source.intern("x");
    let tree = SyntaxExpr::Sequence(vec![
        SyntaxExpr::Loop(LoopExpression {
            kind: LoopKind::While,
            kw_span: sp(0, 5),
            condition: Box::new(boolean(false, 6)),
            body: BlockBody {
                contents: Box::new(decl(VarStyle::Mutable, x, None, num(1, 15), 11)),
                close: sp(20, 23),
            },
        }),
        SyntaxExpr::Grouping(GroupingExpression {
            open: sp(24, 25),
            inner: Box::new(ident(x, 25)),
            close: sp(26, 27),
        }),
    ]);
    let (_bound, diagnostics) = bind(&mut source, &tree);
    assert_eq!(vec!["Can't find 'x' in this scope".to_string()], messages(&diagnostics));
}

#[test]
fn type_names_and_function_identifiers() {
    let mut source = SourceText::new("");
    let f = source.intern("f");
    let number = source.intern("Number");
    let tree = SyntaxExpr::Sequence(vec![
        func(f, vec![], named(number, 5), num(1, 15), 0),
        ident(f, 60),
        ident(number, 70),
    ]);
    let (bound, diagnostics) = bind(&mut source, &tree);
    assert!(diagnostics.is_empty());
    match bound.kind {
        ExpressionKind::Sequence(items) => {
            assert_eq!(Some(Typ::Function(f)), items[1].typ);
            assert_eq!(None, items[2].typ);
        }
        other => panic!("expected a sequence, got {:?}", other),
    }
    assert_eq!(None, bound.typ);
    assert_eq!("Number", Typ::Builtin(BuiltinType::Number).name());
    assert_eq!("()", Typ::Unit.name());
}

#[test]
fn sequence_takes_untyped_last_element_type() {
    let mut source = SourceText::new("y");
    let y = source.intern("y");
    let (bound, diagnostics) = bind(&mut source, &SyntaxExpr::Sequence(vec![ident(y, 0)]));
    assert_eq!(vec!["Can't find 'y' in this scope".to_string()], messages(&diagnostics));
    assert_eq!(None, bound.typ);
    let (bound, _) = bind(&mut source, &SyntaxExpr::Sequence(vec![num(1, 0), num(2, 2)]));
    assert_eq!(Some(NUMBER), bound.typ);
}

#[test]
fn sibling_functions_in_a_body_call_each_other() {
    let mut source = SourceText::new("");
    let outer = source.intern("outer");
    let f = source.intern("f");
    let g = source.intern("g");
    let number = source.intern("Number");
    let body = SyntaxExpr::Sequence(vec![
        func(f, vec![], TypeRef::Unit(sp(20, 22)), call(ident(g, 30), vec![], 31, 32), 10),
        func(g, vec![], TypeRef::Unit(sp(60, 62)), call(ident(f, 70), vec![], 71, 72), 50),
        call(ident(f, 90), vec![], 91, 92),
    ]);
    let tree = func(outer, vec![], named(number, 5), body, 0);
    let (bound, diagnostics) = bind(&mut source, &tree);
    assert!(diagnostics.is_empty(), "{:?}", messages(&diagnostics));
    match bound.kind {
        ExpressionKind::Function(decl) => {
            assert_eq!(Some(Typ::Unit), decl.body.typ);
            match decl.body.kind {
                ExpressionKind::Sequence(items) => {
                    for item in &items[..2] {
                        match &item.kind {
                            ExpressionKind::Function(inner) => {
                                assert_eq!(Some(Typ::Unit), inner.body.typ)
                            }
                            other => panic!("expected a function, got {:?}", other),
                        }
                    }
                }
                other => panic!("expected a sequence, got {:?}", other),
            }
        }
        other => panic!("expected a function, got {:?}", other),
    }
}

#[test]
fn loop_body_functions_are_declared_first() {
    let mut source = SourceText::new("");
    let f = source.intern("f");
    let number = source.intern("Number");
    let tree = SyntaxExpr::Loop(LoopExpression {
        kind: LoopKind::While,
        kw_span: sp(0, 5),
        condition: Box::new(boolean(false, 6)),
        body: BlockBody {
            contents: Box::new(SyntaxExpr::Sequence(vec![
                call(ident(f, 11), vec![], 12, 13),
                func(f, vec![], named(number, 20), num(1, 30), 15),
            ])),
            close: sp(40, 43),
        },
    });
    let (_bound, diagnostics) = bind(&mut source, &tree);
    assert!(diagnostics.is_empty(), "{:?}", messages(&diagnostics));
}
