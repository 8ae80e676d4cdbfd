use menu_lowering::expression_tree::{Expression, NamedReference};

fn reference(element: usize, property: &str) -> Expression {
    Expression::PropertyReference(NamedReference::new(element, property))
}

fn refers_to(e: &Expression, element: usize, property: &str) -> bool {
    match e {
        Expression::PropertyReference(r) => *r == NamedReference::new(element, property),
        _ => false,
    }
}

#[test]
fn tokens_of_one_element_and_property_are_equal() {
    let a = NamedReference::new(3, "height");
    let b = NamedReference::new(3, "height");
    assert!(a == b);
    assert_eq!(a.element(), 3);
    assert_eq!(a.name(), "height");
    assert!(a.clone() == a);
}

#[test]
fn tokens_of_different_elements_differ() {
    assert!(NamedReference::new(3, "height") != NamedReference::new(4, "height"));
    assert!(NamedReference::new(3, "height") != NamedReference::new(3, "width"));
}

#[test]
fn retarget_replaces_only_the_old_token() {
    let from = NamedReference::new(1, "height");
    let to = NamedReference::new(9, "height");
    let mut hit = NamedReference::new(1, "height");
    hit.retarget(&from, &to);
    assert!(hit == to);
    let mut miss = NamedReference::new(1, "width");
    miss.retarget(&from, &to);
    assert!(miss == NamedReference::new(1, "width"));
    let mut other = NamedReference::new(2, "height");
    other.retarget(&from, &to);
    assert!(other == NamedReference::new(2, "height"));
}

#[test]
fn rewrite_reaches_nested_references() {
    let from = NamedReference::new(1, "height");
    let to = NamedReference::new(9, "height");
    let e = Expression::Condition {
        condition: Box::new(Expression::BoolLiteral(true)),
        true_expr: Box::new(Expression::BinaryExpression {
            lhs: Box::new(reference(1, "height")),
            rhs: Box::new(Expression::UnaryOp { sub: Box::new(reference(1, "height")), op: '-' }),
            op: '+',
        }),
        false_expr: Box::new(Expression::BinaryExpression {
            lhs: Box::new(reference(2, "height")),
            rhs: Box::new(Expression::NumberLiteral(5)),
            op: '*',
        }),
    };
    match e.rewritten(&from, &to) {
        Expression::Condition { condition, true_expr, false_expr } => {
            assert!(matches!(*condition, Expression::BoolLiteral(true)));
            match *true_expr {
                Expression::BinaryExpression { lhs, rhs, op } => {
                    assert_eq!(op, '+');
                    assert!(refers_to(&lhs, 9, "height"));
                    match *rhs {
                        Expression::UnaryOp { sub, op } => {
                            assert_eq!(op, '-');
                            assert!(refers_to(&sub, 9, "height"));
                        }
                        _ => panic!("the unary operation is gone"),
                    }
                }
                _ => panic!("the binary expression is gone"),
            }
            match *false_expr {
                Expression::BinaryExpression { lhs, rhs, op } => {
                    assert_eq!(op, '*');
                    assert!(refers_to(&lhs, 2, "height"));
                    assert!(matches!(*rhs, Expression::NumberLiteral(5)));
                }
                _ => panic!("the binary expression is gone"),
            }
        }
        _ => panic!("the condition is gone"),
    }
}

#[test]
fn rewrite_keeps_literals() {
    let from = NamedReference::new(1, "height");
    let to = NamedReference::new(9, "height");
    assert!(matches!(Expression::Invalid.rewritten(&from, &to), Expression::Invalid));
    assert!(matches!(
        Expression::NumberLiteral(-4).rewritten(&from, &to),
        Expression::NumberLiteral(-4)
    ));
    assert!(matches!(
        Expression::BoolLiteral(false).rewritten(&from, &to),
        Expression::BoolLiteral(false)
    ));
}
