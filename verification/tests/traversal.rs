use menu_lowering::diagnostics::{BuildDiagnostics, SourceLocation};
use menu_lowering::langtype::{ElementType, TypeRegistry};
use menu_lowering::object_tree::Document;
use menu_lowering::passes::lower_menus::lower_menus;
use menu_lowering::typeloader::TypeLoader;

fn builtin(name: &str) -> ElementType {
    ElementType::Builtin(name.to_string())
}

fn element(doc: &mut Document, id: &str, ty: &str, component: usize, offset: u32) -> usize {
    doc.add_element(id.to_string(), builtin(ty), component, Some(SourceLocation { offset })).unwrap()
}

fn loader() -> TypeLoader {
    let mut registry = TypeRegistry::new(builtin("Empty"));
    registry.insert_builtin_element("VerticalLayout".to_string(), builtin("VerticalLayout"));
    let mut loader = TypeLoader::new(registry);
    loader.record_import(
        "std-widgets.slint".to_string(),
        "MenuBarImpl".to_string(),
        builtin("MenuBarImpl"),
    );
    loader
}

#[test]
fn empty_document_has_nothing_to_visit() {
    assert_eq!(Document::new().traversal_order(), Vec::<usize>::new());
}

#[test]
fn parents_come_before_children_depth_first() {
    let mut doc = Document::new();
    let (_, r) = doc.add_component("A", "r", builtin("Rectangle"), None);
    let a = element(&mut doc, "a", "Text", 0, 1);
    let b = element(&mut doc, "b", "Text", 0, 2);
    let c = element(&mut doc, "c", "Text", 0, 3);
    let d = element(&mut doc, "d", "Text", 0, 4);
    doc.append_child(r, a);
    doc.append_child(r, b);
    doc.append_child(a, c);
    doc.append_child(a, d);
    assert_eq!(doc.traversal_order(), vec![r, a, c, d, b]);
}

#[test]
fn components_are_walked_in_their_order() {
    let mut doc = Document::new();
    let (_, r1) = doc.add_component("A", "r1", builtin("Rectangle"), None);
    let (_, r2) = doc.add_component("B", "r2", builtin("Rectangle"), None);
    let a = element(&mut doc, "a", "Text", 1, 1);
    let b = element(&mut doc, "b", "Text", 0, 2);
    doc.append_child(r2, a);
    doc.append_child(r1, b);
    assert_eq!(doc.traversal_order(), vec![r1, b, r2, a]);
}

#[test]
fn what_cannot_be_reached_is_not_visited() {
    let mut doc = Document::new();
    let (_, r) = doc.add_component("A", "r", builtin("Rectangle"), None);
    let a = element(&mut doc, "a", "Text", 0, 1);
    let lost = element(&mut doc, "lost", "Text", 0, 2);
    let below = element(&mut doc, "below", "Text", 0, 3);
    doc.append_child(r, a);
    doc.append_child(lost, below);
    assert_eq!(doc.traversal_order(), vec![r, a]);
}

#[test]
fn every_element_is_visited_once() {
    let mut doc = Document::new();
    let (_, r) = doc.add_component("A", "r", builtin("Rectangle"), None);
    let a = element(&mut doc, "a", "Text", 0, 1);
    let b = element(&mut doc, "b", "Text", 0, 2);
    doc.append_child(r, a);
    doc.append_child(r, b);
    doc.append_child(r, a);
    doc.append_child(a, b);
    doc.append_child(b, r);
    assert_eq!(doc.traversal_order(), vec![r, a, b]);
    let (_, again) = doc.add_component("B", "again", builtin("Rectangle"), None);
    doc.append_child(again, a);
    assert_eq!(doc.traversal_order(), vec![r, a, b, again]);
}

#[test]
fn windows_are_lowered_in_the_order_of_the_traversal() {
    let mut doc = Document::new();
    let (_, r) = doc.add_component("A", "r", builtin("Rectangle"), None);
    let first = element(&mut doc, "first", "Window", 0, 10);
    let second = element(&mut doc, "second", "Window", 0, 20);
    doc.append_child(r, second);
    doc.append_child(r, first);
    for (window, offset) in [(first, 100), (second, 200)] {
        let m = element(&mut doc, "m", "MenuBar", 0, offset);
        let extra = element(&mut doc, "extra", "MenuBar", 0, offset + 1);
        doc.append_child(window, m);
        doc.append_child(window, extra);
    }
    let mut diag = BuildDiagnostics::default();
    assert_eq!(lower_menus(&mut doc, &loader(), &mut diag), Ok(()));
    assert_eq!(diag.len(), 2);
    assert_eq!(diag.get(0).unwrap().span, Some(SourceLocation { offset: 201 }));
    assert_eq!(diag.get(1).unwrap().span, Some(SourceLocation { offset: 101 }));
    assert_eq!(doc.element(7).unwrap().id, "second-child");
    assert_eq!(doc.element(8).unwrap().id, "second-menulayout");
    assert_eq!(doc.element(9).unwrap().id, "first-child");
    assert_eq!(doc.element(10).unwrap().id, "first-menulayout");
    assert_eq!(doc.element(second).unwrap().children, vec![8]);
    assert_eq!(doc.element(first).unwrap().children, vec![10]);
    assert_eq!(doc.traversal_order(), vec![r, second, 8, 5, 7, first, 10, 3, 9]);
}

#[test]
fn window_inside_a_window_is_lowered_too() {
    let mut doc = Document::new();
    let (_, outer) = doc.add_component("A", "outer", builtin("Window"), None);
    let m = element(&mut doc, "m", "MenuBar", 0, 1);
    let inner = element(&mut doc, "inner", "Window", 0, 2);
    let im = element(&mut doc, "im", "MenuBar", 0, 3);
    let text = element(&mut doc, "text", "Text", 0, 4);
    doc.append_child(outer, m);
    doc.append_child(outer, inner);
    doc.append_child(inner, im);
    doc.append_child(inner, text);
    let mut diag = BuildDiagnostics::default();
    assert_eq!(lower_menus(&mut doc, &loader(), &mut diag), Ok(()));
    assert!(diag.is_empty());
    assert_eq!(doc.element(outer).unwrap().children, vec![6]);
    assert_eq!(doc.element(6).unwrap().children, vec![m, 5]);
    assert_eq!(doc.element(5).unwrap().children, vec![inner]);
    assert_eq!(doc.element(inner).unwrap().children, vec![8]);
    assert_eq!(doc.element(8).unwrap().id, "inner-menulayout");
    assert_eq!(doc.element(8).unwrap().children, vec![im, 7]);
    assert_eq!(doc.element(7).unwrap().children, vec![text]);
    assert!(doc.element(im).unwrap().base_type.is_builtin_named("MenuBarImpl"));
}

#[test]
fn window_outside_every_tree_is_not_lowered() {
    let mut doc = Document::new();
    let (_, r) = doc.add_component("A", "r", builtin("Rectangle"), None);
    let lost = element(&mut doc, "lost", "Window", 0, 1);
    let m = element(&mut doc, "m", "MenuBar", 0, 2);
    doc.append_child(lost, m);
    let mut diag = BuildDiagnostics::default();
    assert_eq!(lower_menus(&mut doc, &loader(), &mut diag), Ok(()));
    assert_eq!(doc.element_count(), 3);
    assert_eq!(doc.element(lost).unwrap().children, vec![m]);
    assert!(doc.element(m).unwrap().base_type.is_builtin_named("MenuBar"));
    assert!(doc.element(r).unwrap().children.is_empty());
}
