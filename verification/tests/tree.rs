use menu_lowering::diagnostics::SourceLocation;
use menu_lowering::expression_tree::{Expression, NamedReference};
use menu_lowering::langtype::ElementType;
use menu_lowering::object_tree::Document;

fn builtin(name: &str) -> ElementType {
    ElementType::Builtin(name.to_string())
}

fn refers_to(e: &Expression, element: usize, property: &str) -> bool {
    match e {
        Expression::PropertyReference(r) => *r == NamedReference::new(element, property),
        _ => false,
    }
}

#[test]
fn new_document_is_empty() {
    let doc = Document::new();
    assert_eq!(doc.element_count(), 0);
    assert_eq!(doc.component_count(), 0);
    assert!(doc.element(0).is_none());
    assert!(doc.component(0).is_none());
}

#[test]
fn component_comes_with_its_root() {
    let mut doc = Document::new();
    let (component, root) =
        doc.add_component("App", "root", builtin("Window"), Some(SourceLocation { offset: 10 }));
    assert_eq!((component, root), (0, 0));
    assert_eq!(doc.component(0).unwrap().id, "App");
    assert_eq!(doc.component(0).unwrap().root_element, 0);
    let e = doc.element(0).unwrap();
    assert_eq!(e.id, "root");
    assert!(e.base_type.is_builtin_named("Window"));
    assert_eq!(e.enclosing_component, 0);
    assert!(e.children.is_empty());
    assert!(e.bindings.is_empty());
    assert!(e.property_declarations.is_empty());
    assert!(e.geometry_props.is_none());
    assert_eq!(e.location, Some(SourceLocation { offset: 10 }));
    let (second, second_root) = doc.add_component("Other", "r", builtin("Rectangle"), None);
    assert_eq!((second, second_root), (1, 1));
}

#[test]
fn element_needs_its_component() {
    let mut doc = Document::new();
    assert!(doc.add_element("a".to_string(), builtin("Text"), 0, None).is_none());
    assert_eq!(doc.element_count(), 0);
    doc.add_component("App", "root", builtin("Window"), None);
    assert_eq!(doc.add_element("a".to_string(), builtin("Text"), 0, None), Some(1));
    assert!(doc.add_element("b".to_string(), builtin("Text"), 1, None).is_none());
    assert_eq!(doc.element_count(), 2);
    assert_eq!(doc.element(1).unwrap().id, "a");
}

#[test]
fn children_keep_their_order() {
    let mut doc = Document::new();
    let (_, root) = doc.add_component("App", "root", builtin("Window"), None);
    let a = doc.add_element("a".to_string(), builtin("Text"), 0, None).unwrap();
    let b = doc.add_element("b".to_string(), builtin("Text"), 0, None).unwrap();
    assert!(doc.append_child(root, b));
    assert!(doc.append_child(root, a));
    assert!(!doc.append_child(root, 17));
    assert!(!doc.append_child(17, a));
    assert_eq!(doc.element(root).unwrap().children, vec![b, a]);
    doc.set_children(root, vec![a, b, a]);
    assert_eq!(doc.element(root).unwrap().children, vec![a, b, a]);
    doc.set_base_type(a, builtin("Rectangle"));
    assert!(doc.element(a).unwrap().base_type.is_builtin_named("Rectangle"));
    assert!(doc.element(b).unwrap().base_type.is_builtin_named("Text"));
}

#[test]
fn reference_needs_a_known_property() {
    let mut doc = Document::new();
    let (_, root) = doc.add_component("App", "root", builtin("Window"), None);
    assert!(doc.make_reference(root, "height").unwrap() == NamedReference::new(root, "height"));
    assert!(doc.make_reference(root, "width").is_some());
    assert!(doc.make_reference(root, "x").is_some());
    assert!(doc.make_reference(root, "y").is_some());
    assert!(doc.make_reference(root, "title").is_none());
    assert!(doc.make_reference(1, "height").is_none());
    assert!(doc.add_binding(root, "title", Expression::NumberLiteral(1)));
    assert!(!doc.add_binding(5, "title", Expression::NumberLiteral(1)));
    assert!(doc.make_reference(root, "title").is_none());
    assert!(doc.declare_property(root, "counter"));
    assert!(doc.declare_property(root, "title"));
    assert!(!doc.declare_property(5, "title"));
    assert_eq!(doc.element(root).unwrap().property_declarations, vec!["counter", "title"]);
    assert!(doc.make_reference(root, "title").unwrap() == NamedReference::new(root, "title"));
    assert!(doc.make_reference(root, "counter").is_some());
    assert!(doc.make_reference(root, "titl").is_none());
    assert!(doc.make_reference(root, "Height").is_none());
}

#[test]
fn rewrite_all_reaches_every_element() {
    let mut doc = Document::new();
    let (_, root) = doc.add_component("App", "root", builtin("Window"), None);
    let a = doc.add_element("a".to_string(), builtin("Text"), 0, None).unwrap();
    doc.append_child(root, a);
    let (_, other) = doc.add_component("Other", "r", builtin("Rectangle"), None);
    let from = NamedReference::new(root, "height");
    let to = NamedReference::new(a, "height");
    doc.add_binding(root, "p", Expression::PropertyReference(from.clone()));
    doc.add_binding(a, "q", Expression::PropertyReference(from.clone()));
    doc.add_binding(
        other,
        "r",
        Expression::UnaryOp { sub: Box::new(Expression::PropertyReference(from.clone())), op: '!' },
    );
    doc.add_binding(other, "s", Expression::PropertyReference(NamedReference::new(root, "width")));
    assert!(doc.set_geometry(root, NamedReference::new(root, "width"), from.clone()));
    assert!(!doc.set_geometry(9, NamedReference::new(root, "width"), from.clone()));
    doc.rewrite_all(&from, &to);
    assert!(refers_to(&doc.element(root).unwrap().bindings[0].expression, a, "height"));
    assert_eq!(doc.element(root).unwrap().bindings[0].property, "p");
    assert!(refers_to(&doc.element(a).unwrap().bindings[0].expression, a, "height"));
    match &doc.element(other).unwrap().bindings[0].expression {
        Expression::UnaryOp { sub, op } => {
            assert_eq!(*op, '!');
            assert!(refers_to(sub, a, "height"));
        }
        _ => panic!("the unary operation is gone"),
    }
    assert!(refers_to(&doc.element(other).unwrap().bindings[1].expression, root, "width"));
    let geometry = doc.element(root).unwrap().geometry_props.as_ref().unwrap();
    assert!(geometry.height == to);
    assert!(geometry.width == NamedReference::new(root, "width"));
}

#[test]
fn rewrite_can_keep_one_height_slot() {
    let mut doc = Document::new();
    let (_, root) = doc.add_component("App", "root", builtin("Window"), None);
    let a = doc.add_element("a".to_string(), builtin("Text"), 0, None).unwrap();
    let from = NamedReference::new(root, "height");
    let to = NamedReference::new(a, "height");
    doc.set_geometry(root, from.clone(), from.clone());
    doc.set_geometry(a, from.clone(), from.clone());
    doc.rewrite_all_keeping(&from, &to, Some(root));
    let kept = doc.element(root).unwrap().geometry_props.as_ref().unwrap();
    assert!(kept.height == from);
    assert!(kept.width == to);
    let moved = doc.element(a).unwrap().geometry_props.as_ref().unwrap();
    assert!(moved.height == to);
    assert!(moved.width == to);
}
