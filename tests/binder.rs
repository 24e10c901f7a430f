use ullage::binder::Binder;
use ullage::scope::{add_builtin_types, Scope, ScopeStack, Symbol};
use ullage::syntax::{
    Constant, Expression as SyntaxExpr, IdentifierExpression, LiteralExpression,
    PrefixExpression, PrefixOp, VarStyle,
};
use ullage::text::{Interner, SourceText, Span};
use ullage::tree::{Expression, ExpressionKind};
use ullage::types::{BuiltinType, Typ};

#[test]
fn create_scope() {
    let mut interner = Interner::new();

    let scope = Scope::new();

    assert_eq!(None, scope.lookup(interner.intern("foo")));
}

#[test]
fn declare_and_lookup() {
    let mut interner = Interner::new();
    let mut scope = Scope::new();
    let id = interner.intern("test§");

    assert!(scope.try_declare(id, Symbol::Variable(VarStyle::Mutable, Typ::Unit)));
    let found = scope.lookup(id);
    assert!(!scope.try_declare(id, Symbol::Variable(VarStyle::Mutable, Typ::Unit)));

    assert_eq!(Some(Symbol::Variable(VarStyle::Mutable, Typ::Unit)), found);
}

#[test]
fn declare_in_parent() {
    let mut interner = Interner::new();
    let foo_id = interner.intern("foo");
    let bar_id = interner.intern("bar");
    let baz_id = interner.intern("baz");

    let mut scope = Scope::new();
    assert!(scope.try_declare(
        foo_id,
        Symbol::Variable(VarStyle::Mutable, Typ::Builtin(BuiltinType::Number))
    ));
    assert!(scope.try_declare(bar_id, Symbol::Variable(VarStyle::Mutable, Typ::Unit)));

    let mut scopes = ScopeStack::new(scope);
    let mut scope = Scope::new();

    assert!(scope.try_declare(
        bar_id,
        Symbol::Variable(VarStyle::Mutable, Typ::Builtin(BuiltinType::String))
    ));
    assert!(scope.try_declare(
        baz_id,
        Symbol::Variable(VarStyle::Mutable, Typ::Builtin(BuiltinType::Bool))
    ));

    scopes.push(scope);

    let foo_lookup = scopes.lookup(foo_id);
    let bar_lookup = scopes.lookup(bar_id);
    let baz_lookup = scopes.lookup(baz_id);
    let failed = scopes.lookup(interner.intern("nothere"));

    assert_eq!(
        Some(Symbol::Variable(
            VarStyle::Mutable,
            Typ::Builtin(BuiltinType::Number)
        )),
        foo_lookup
    );
    assert_eq!(
        Some(Symbol::Variable(
            VarStyle::Mutable,
            Typ::Builtin(BuiltinType::String)
        )),
        bar_lookup
    );
    assert_eq!(
        Some(Symbol::Variable(
            VarStyle::Mutable,
            Typ::Builtin(BuiltinType::Bool)
        )),
        baz_lookup
    );
    assert_eq!(None, failed);
}

#[test]
fn scope_stack_current() {
    let mut source = SourceText::new("");
    let mut scopes = ScopeStack::new(Scope::new());

    assert!(scopes.current_mut().try_declare(
        source.intern("foo"),
        Symbol::Variable(VarStyle::Mutable, Typ::Builtin(BuiltinType::Bool))
    ));
    assert!(!scopes.current_mut().try_declare(
        source.intern("foo"),
        Symbol::Variable(VarStyle::Mutable, Typ::Builtin(BuiltinType::Bool))
    ));

    scopes.push(Scope::new());

    assert!(scopes.current_mut().try_declare(
        source.intern("foo"),
        Symbol::Variable(VarStyle::Mutable, Typ::Builtin(BuiltinType::Number))
    ));
    assert!(!scopes.current_mut().try_declare(
        source.intern("foo"),
        Symbol::Variable(VarStyle::Mutable, Typ::Builtin(BuiltinType::String))
    ));

    assert_eq!(
        Some(Symbol::Variable(
            VarStyle::Mutable,
            Typ::Builtin(BuiltinType::Number)
        )),
        scopes.lookup(source.intern("foo"))
    );

    scopes.pop();

    assert_eq!(
        Some(Symbol::Variable(
            VarStyle::Mutable,
            Typ::Builtin(BuiltinType::Bool)
        )),
        scopes.lookup(source.intern("foo"))
    );
}

#[test]
fn test_add_default_types() {
    let mut scope = Scope::new();
    let mut source = SourceText::new("");

    add_builtin_types(&mut scope, &mut source);

    let string_lookup = scope.lookup(source.intern("String"));
    assert_eq!(
        Some(Symbol::Type(Typ::Builtin(BuiltinType::String))),
        string_lookup
    );

    let bool_lookup = scope.lookup(source.intern("Bool"));
    assert_eq!(
        Some(Symbol::Type(Typ::Builtin(BuiltinType::Bool))),
        bool_lookup
    );

    let num_lookup = scope.lookup(source.intern("Number"));
    assert_eq!(
        Some(Symbol::Type(Typ::Builtin(BuiltinType::Number))),
        num_lookup
    );
}

#[test]
fn bind_identifier_lookup() {
    let mut source = SourceText::new("");
    let mut scope = Scope::new();
    scope.try_declare(
        source.intern("melles"),
        Symbol::Variable(VarStyle::Mutable, Typ::Builtin(BuiltinType::Bool)),
    );
    let mut binder = Binder::new(scope);

    let bound = binder.bind_identifier(
        &IdentifierExpression {
            ident: source.intern("melles"),
            span: Span::new(0, 6),
        },
        &source,
    );

    assert_eq!(ExpressionKind::Identifier("melles".into()), bound.kind);
    assert_eq!(Some(Typ::Builtin(BuiltinType::Bool)), bound.typ);
}

#[test]
fn bind_const_value() {
    let mut binder = Binder::new(Scope::new());

    let bound = binder.bind_literal(&LiteralExpression {
        value: Constant::Number(1337),
        span: Span::new(0, 4),
    });

    assert_eq!(ExpressionKind::Literal(Constant::Number(1337)), bound.kind);
    assert_eq!(Some(Typ::Builtin(BuiltinType::Number)), bound.typ);
}

#[test]
fn bind_prefix_expression() {
    let source = SourceText::new("");
    let mut binder = Binder::new(Scope::new());

    let bound = binder.bind_prefix(
        &PrefixExpression {
            op: PrefixOp::Negate,
            op_span: Span::new(0, 1),
            inner: Box::new(SyntaxExpr::Literal(LiteralExpression {
                value: Constant::Number(23),
                span: Span::new(1, 3),
            })),
        },
        &source,
    );

    assert_eq!(
        ExpressionKind::Prefix(
            PrefixOp::Negate,
            Box::new(Expression::new(
                ExpressionKind::Literal(Constant::Number(23)),
                Some(Typ::Builtin(BuiltinType::Number))
            ))
        ),
        bound.kind
    );
    assert_eq!(Some(Typ::Builtin(BuiltinType::Number)), bound.typ);
}
