use ullage::compile::{Compilation, Error};
use ullage::syntax::{
    Constant, Expression as SyntaxExpr, IdentifierExpression, InfixOp, InfixOperatorExpression,
    LiteralExpression,
};
use ullage::text::{Ident, SourceText, Span};
use ullage::transform::transform_expression;
use ullage::tree::ExpressionKind;
use ullage::types::{BuiltinType, Typ};

fn num(n: i64, at: usize) -> SyntaxExpr {
    SyntaxExpr::Literal(LiteralExpression { value: Constant::Number(n), span: Span::new(at, at + 1) })
}

fn ident(id: Ident, at: usize) -> SyntaxExpr {
    SyntaxExpr::Identifier(IdentifierExpression { ident: id, span: Span::new(at, at + 1) })
}

fn infix(left: SyntaxExpr, op: InfixOp, right: SyntaxExpr, at: usize) -> SyntaxExpr {
    SyntaxExpr::Infix(InfixOperatorExpression {
        left: Box::new(left),
        op,
        op_span: Span::new(at, at + 1),
        right: Box::new(right),
    })
}

#[test]
fn transform_leaves_identifiers_untyped() {
    let mut source = SourceText::new("");
    let y = source.intern("y");
    let tree = infix(ident(y, 0), InfixOp::Add, num(1, 4), 2);
    let transformed = transform_expression(&tree, &source).unwrap();
    assert_eq!(Some(Typ::Builtin(BuiltinType::Number)), transformed.typ);
    let compared = infix(ident(y, 0), InfixOp::Lt, num(1, 4), 2);
    let transformed = transform_expression(&compared, &source).unwrap();
    assert_eq!(Some(Typ::Builtin(BuiltinType::Bool)), transformed.typ);
    let alone = transform_expression(&ident(y, 0), &source).unwrap();
    assert_eq!(ExpressionKind::Identifier("y".to_string()), alone.kind);
    assert_eq!(None, alone.typ);
}

#[test]
fn transform_rejects_assignment_to_non_identifier() {
    let source = SourceText::new("");
    let tree = infix(num(1, 0), InfixOp::Assign, num(2, 4), 2);
    assert_eq!(
        Err(Error::Generic("left hand side of an assignment must be an identifier".to_string())),
        transform_expression(&tree, &source)
    );
    assert!(Compilation::new(&tree, &source).is_err());
}

#[test]
fn compilation_holds_transformed_tree() {
    let mut source = SourceText::new("");
    let x = source.intern("x");
    let tree = infix(ident(x, 0), InfixOp::Assign, num(2, 4), 2);
    let compilation = Compilation::new(&tree, &source).unwrap();
    match &compilation.expression().kind {
        ExpressionKind::Assignment(name, value) => {
            assert_eq!("x", name);
            assert_eq!(Some(Typ::Builtin(BuiltinType::Number)), value.typ);
        }
        other => panic!("expected an assignment, got {:?}", other),
    }
}
