use menu_lowering::diagnostics::{BuildDiagnostics, DiagnosticLevel, SourceLocation};
use menu_lowering::expression_tree::{Expression, NamedReference};
use menu_lowering::langtype::{ElementType, TypeRegistry};
use menu_lowering::object_tree::Document;
use menu_lowering::passes::lower_menus::{
    lower_all_windows, lower_menus, process_window, resolve_menu_components, MissingType,
    UsefulMenuComponents,
};
use menu_lowering::typeloader::TypeLoader;

fn builtin(name: &str) -> ElementType {
    ElementType::Builtin(name.to_string())
}

fn at(offset: u32) -> Option<SourceLocation> {
    Some(SourceLocation { offset })
}

fn loader() -> TypeLoader {
    let mut registry = TypeRegistry::new(builtin("Empty"));
    registry.insert_builtin_element("VerticalLayout".to_string(), builtin("VerticalLayout"));
    let mut loader = TypeLoader::new(registry);
    loader.record_import(
        "std-widgets.slint".to_string(),
        "MenuBarImpl".to_string(),
        builtin("MenuBarImpl"),
    );
    loader
}

fn components() -> UsefulMenuComponents {
    UsefulMenuComponents {
        menubar_impl: builtin("MenuBarImpl"),
        vertical_layout: builtin("VerticalLayout"),
        empty: builtin("Empty"),
    }
}

fn child_of(doc: &mut Document, parent: usize, id: &str, ty: &str, offset: u32) -> usize {
    let e = doc.add_element(id.to_string(), builtin(ty), 0, at(offset)).unwrap();
    assert!(doc.append_child(parent, e));
    e
}

fn refers_to(e: &Expression, element: usize, property: &str) -> bool {
    match e {
        Expression::PropertyReference(r) => *r == NamedReference::new(element, property),
        _ => false,
    }
}

#[test]
fn window_with_menu_bar_is_rebuilt() {
    let mut doc = Document::new();
    let (_, w) = doc.add_component("App", "W", builtin("Window"), at(0));
    let m = child_of(&mut doc, w, "m", "MenuBar", 10);
    let b1 = child_of(&mut doc, w, "b1", "Button", 20);
    let b2 = child_of(&mut doc, w, "b2", "Text", 30);
    let mut diag = BuildDiagnostics::default();
    assert_eq!(lower_menus(&mut doc, &loader(), &mut diag), Ok(()));
    assert!(diag.is_empty());
    assert_eq!(doc.element_count(), 6);
    let wrapper = 4;
    let layout = 5;
    let window = doc.element(w).unwrap();
    assert_eq!(window.id, "W");
    assert!(window.base_type.is_builtin_named("Window"));
    assert_eq!(window.children, vec![layout]);
    let l = doc.element(layout).unwrap();
    assert_eq!(l.id, "W-menulayout");
    assert!(l.base_type.is_builtin_named("VerticalLayout"));
    assert_eq!(l.children, vec![m, wrapper]);
    assert_eq!(l.enclosing_component, 0);
    assert_eq!(l.location, None);
    let menu = doc.element(m).unwrap();
    assert_eq!(menu.id, "m");
    assert!(menu.base_type.is_builtin_named("MenuBarImpl"));
    assert!(menu.children.is_empty());
    let c = doc.element(wrapper).unwrap();
    assert_eq!(c.id, "W-child");
    assert!(c.base_type.is_builtin_named("Empty"));
    assert_eq!(c.children, vec![b1, b2]);
    assert_eq!(c.enclosing_component, 0);
    assert!(doc.element(b1).unwrap().base_type.is_builtin_named("Button"));
    assert_eq!(doc.element(b1).unwrap().id, "b1");
    assert!(doc.element(b2).unwrap().base_type.is_builtin_named("Text"));
    assert_eq!(doc.element(b2).unwrap().id, "b2");
}

#[test]
fn second_menu_bar_is_an_error_and_is_dropped() {
    let mut doc = Document::new();
    let (_, w) = doc.add_component("App", "W", builtin("Window"), at(0));
    let m1 = child_of(&mut doc, w, "m1", "MenuBar", 10);
    let m2 = child_of(&mut doc, w, "m2", "MenuBar", 15);
    let b1 = child_of(&mut doc, w, "b1", "Button", 20);
    let b2 = child_of(&mut doc, w, "b2", "Text", 30);
    let mut diag = BuildDiagnostics::default();
    assert_eq!(lower_menus(&mut doc, &loader(), &mut diag), Ok(()));
    assert_eq!(diag.len(), 1);
    let error = diag.get(0).unwrap();
    assert_eq!(error.level, DiagnosticLevel::Error);
    assert_eq!(error.message, "Only one MenuBar is allowed in a Window");
    assert_eq!(error.span, at(15));
    assert!(diag.has_errors());
    let wrapper = 5;
    let layout = 6;
    assert_eq!(doc.element_count(), 7);
    assert_eq!(doc.element(w).unwrap().children, vec![layout]);
    assert_eq!(doc.element(layout).unwrap().id, "W-menulayout");
    assert_eq!(doc.element(layout).unwrap().children, vec![m1, wrapper]);
    assert!(doc.element(m1).unwrap().base_type.is_builtin_named("MenuBarImpl"));
    assert_eq!(doc.element(wrapper).unwrap().id, "W-child");
    assert_eq!(doc.element(wrapper).unwrap().children, vec![b1, b2]);
    assert!(doc.element(m2).unwrap().base_type.is_builtin_named("MenuBar"));
}

#[test]
fn three_menu_bars_give_one_error() {
    let mut doc = Document::new();
    let (_, w) = doc.add_component("App", "W", builtin("Window"), at(0));
    let b0 = child_of(&mut doc, w, "b0", "Button", 5);
    let m1 = child_of(&mut doc, w, "m1", "MenuBar", 10);
    let b1 = child_of(&mut doc, w, "b1", "Button", 20);
    let _m2 = child_of(&mut doc, w, "m2", "MenuBar", 25);
    let _m3 = child_of(&mut doc, w, "m3", "MenuBar", 35);
    let mut diag = BuildDiagnostics::default();
    process_window(&mut doc, w, &components(), &mut diag);
    assert_eq!(diag.len(), 1);
    assert_eq!(diag.get(0).unwrap().span, at(25));
    assert_eq!(doc.element(w).unwrap().children, vec![7]);
    assert_eq!(doc.element(7).unwrap().children, vec![m1, 6]);
    assert_eq!(doc.element(6).unwrap().children, vec![b0, b1]);
}

#[test]
fn window_without_menu_bar_is_left_alone() {
    let mut doc = Document::new();
    let (_, w) = doc.add_component("App", "W", builtin("Window"), at(0));
    let b1 = child_of(&mut doc, w, "b1", "Button", 20);
    let b2 = child_of(&mut doc, w, "b2", "Text", 30);
    doc.add_binding(b1, "size", Expression::PropertyReference(NamedReference::new(w, "height")));
    let mut diag = BuildDiagnostics::default();
    assert_eq!(lower_menus(&mut doc, &loader(), &mut diag), Ok(()));
    assert!(diag.is_empty());
    assert_eq!(doc.element_count(), 3);
    assert_eq!(doc.element(w).unwrap().children, vec![b1, b2]);
    assert!(refers_to(&doc.element(b1).unwrap().bindings[0].expression, w, "height"));
    let empty_window = Document::new();
    let mut doc = empty_window;
    let (_, w) = doc.add_component("App", "W", builtin("Window"), at(0));
    process_window(&mut doc, w, &components(), &mut diag);
    assert!(doc.element(w).unwrap().children.is_empty());
    assert_eq!(doc.element_count(), 1);
    assert!(diag.is_empty());
}

#[test]
fn menu_bar_outside_a_window_is_left_alone() {
    let mut doc = Document::new();
    let (_, r) = doc.add_component("App", "R", builtin("Rectangle"), at(0));
    let m = child_of(&mut doc, r, "m", "MenuBar", 10);
    let mut diag = BuildDiagnostics::default();
    assert_eq!(lower_menus(&mut doc, &loader(), &mut diag), Ok(()));
    assert_eq!(doc.element_count(), 2);
    assert_eq!(doc.element(r).unwrap().children, vec![m]);
    assert!(doc.element(m).unwrap().base_type.is_builtin_named("MenuBar"));
}

#[test]
fn references_to_the_window_height_follow_the_content() {
    let mut doc = Document::new();
    let (_, w) = doc.add_component("App", "W", builtin("Window"), at(0));
    let m = child_of(&mut doc, w, "m", "MenuBar", 10);
    let b1 = child_of(&mut doc, w, "b1", "Button", 20);
    let (_, other) = doc.add_component("Other", "o", builtin("Rectangle"), at(50));
    let win_height = NamedReference::new(w, "height");
    doc.set_geometry(w, NamedReference::new(w, "width"), win_height.clone());
    doc.set_geometry(b1, NamedReference::new(b1, "width"), win_height.clone());
    doc.add_binding(w, "a", Expression::PropertyReference(win_height.clone()));
    doc.add_binding(
        b1,
        "b",
        Expression::BinaryExpression {
            lhs: Box::new(Expression::PropertyReference(win_height.clone())),
            rhs: Box::new(Expression::PropertyReference(NamedReference::new(w, "width"))),
            op: '/',
        },
    );
    doc.add_binding(m, "c", Expression::PropertyReference(NamedReference::new(b1, "height")));
    doc.add_binding(other, "d", Expression::PropertyReference(win_height.clone()));
    let mut diag = BuildDiagnostics::default();
    assert_eq!(lower_menus(&mut doc, &loader(), &mut diag), Ok(()));
    let wrapper = 4;
    assert_eq!(doc.element(wrapper).unwrap().id, "W-child");
    assert!(refers_to(&doc.element(w).unwrap().bindings[0].expression, wrapper, "height"));
    match &doc.element(b1).unwrap().bindings[0].expression {
        Expression::BinaryExpression { lhs, rhs, op } => {
            assert_eq!(*op, '/');
            assert!(refers_to(lhs, wrapper, "height"));
            assert!(refers_to(rhs, w, "width"));
        }
        _ => panic!("the binary expression is gone"),
    }
    assert!(refers_to(&doc.element(m).unwrap().bindings[0].expression, b1, "height"));
    assert!(refers_to(&doc.element(other).unwrap().bindings[0].expression, wrapper, "height"));
    let own = doc.element(w).unwrap().geometry_props.as_ref().unwrap();
    assert!(own.height == win_height);
    assert!(own.width == NamedReference::new(w, "width"));
    let of_button = doc.element(b1).unwrap().geometry_props.as_ref().unwrap();
    assert!(of_button.height == NamedReference::new(wrapper, "height"));
    assert!(doc.element(wrapper).unwrap().bindings.is_empty());
    assert!(doc.element(wrapper).unwrap().geometry_props.is_none());
}

#[test]
fn every_window_is_lowered_in_order() {
    let mut doc = Document::new();
    let (_, w1) = doc.add_component("App", "W1", builtin("Window"), at(0));
    let m1 = child_of(&mut doc, w1, "m1", "MenuBar", 10);
    let x1 = child_of(&mut doc, w1, "x1", "MenuBar", 12);
    let (_, w2) = doc.add_component("Popup", "W2", builtin("Window"), at(40));
    let e = doc.add_element("inner".to_string(), builtin("Text"), 1, at(45)).unwrap();
    doc.append_child(w2, e);
    let m2 = doc.add_element("m2".to_string(), builtin("MenuBar"), 1, at(50)).unwrap();
    doc.append_child(w2, m2);
    let x2 = doc.add_element("x2".to_string(), builtin("MenuBar"), 1, at(55)).unwrap();
    doc.append_child(w2, x2);
    let mut diag = BuildDiagnostics::default();
    lower_all_windows(&mut doc, &components(), &mut diag);
    assert_eq!(diag.len(), 2);
    assert_eq!(diag.get(0).unwrap().span, at(12));
    assert_eq!(diag.get(1).unwrap().span, at(55));
    assert_eq!(doc.element_count(), 11);
    assert_eq!(doc.element(w1).unwrap().children, vec![8]);
    assert_eq!(doc.element(8).unwrap().id, "W1-menulayout");
    assert_eq!(doc.element(8).unwrap().children, vec![m1, 7]);
    assert_eq!(doc.element(7).unwrap().id, "W1-child");
    assert!(doc.element(7).unwrap().children.is_empty());
    assert_eq!(doc.element(7).unwrap().enclosing_component, 0);
    assert_eq!(doc.element(w2).unwrap().children, vec![10]);
    assert_eq!(doc.element(10).unwrap().id, "W2-menulayout");
    assert_eq!(doc.element(10).unwrap().children, vec![m2, 9]);
    assert_eq!(doc.element(9).unwrap().id, "W2-child");
    assert_eq!(doc.element(9).unwrap().children, vec![e]);
    assert_eq!(doc.element(9).unwrap().enclosing_component, 1);
    assert!(doc.element(x1).unwrap().base_type.is_builtin_named("MenuBar"));
}

#[test]
fn missing_menu_bar_import_stops_the_pass() {
    let mut registry = TypeRegistry::new(builtin("Empty"));
    registry.insert_builtin_element("VerticalLayout".to_string(), builtin("VerticalLayout"));
    let loader = TypeLoader::new(registry);
    let mut doc = Document::new();
    let (_, w) = doc.add_component("App", "W", builtin("Window"), at(0));
    let m = child_of(&mut doc, w, "m", "MenuBar", 10);
    let mut diag = BuildDiagnostics::default();
    assert_eq!(lower_menus(&mut doc, &loader, &mut diag), Err(MissingType::MenuBarImpl));
    assert!(diag.is_empty());
    assert_eq!(doc.element_count(), 2);
    assert_eq!(doc.element(w).unwrap().children, vec![m]);
    assert!(matches!(resolve_menu_components(&loader), Err(MissingType::MenuBarImpl)));
}

#[test]
fn missing_layout_stops_the_pass() {
    let mut loader = TypeLoader::new(TypeRegistry::new(builtin("Empty")));
    loader.record_import(
        "std-widgets.slint".to_string(),
        "MenuBarImpl".to_string(),
        builtin("MenuBarImpl"),
    );
    let mut doc = Document::new();
    let (_, w) = doc.add_component("App", "W", builtin("Window"), at(0));
    let m = child_of(&mut doc, w, "m", "MenuBar", 10);
    let mut diag = BuildDiagnostics::default();
    assert_eq!(lower_menus(&mut doc, &loader, &mut diag), Err(MissingType::VerticalLayout));
    assert!(diag.is_empty());
    assert_eq!(doc.element(w).unwrap().children, vec![m]);
    assert!(doc.element(m).unwrap().base_type.is_builtin_named("MenuBar"));
}

#[test]
fn components_are_taken_from_the_loader() {
    let found = resolve_menu_components(&loader()).unwrap();
    assert!(found.menubar_impl.is_builtin_named("MenuBarImpl"));
    assert!(found.vertical_layout.is_builtin_named("VerticalLayout"));
    assert!(found.empty.is_builtin_named("Empty"));
}

#[test]
fn synthetic_identifiers_are_new_among_the_siblings() {
    let ids = ["W", "main_window", "a1", "", "child", "menulayout", "W_child"];
    for id in ids {
        let mut doc = Document::new();
        let (_, w) = doc.add_component("App", id, builtin("Window"), at(0));
        child_of(&mut doc, w, "m", "MenuBar", 10);
        for (k, sibling) in ids.iter().enumerate() {
            child_of(&mut doc, w, sibling, "Text", 20 + k as u32);
        }
        let before = doc.element_count();
        let mut diag = BuildDiagnostics::default();
        process_window(&mut doc, w, &components(), &mut diag);
        let wrapper = doc.element(before).unwrap().id.clone();
        let layout = doc.element(before + 1).unwrap().id.clone();
        assert_eq!(wrapper, format!("{}-child", id));
        assert_eq!(layout, format!("{}-menulayout", id));
        assert_ne!(wrapper, layout);
        for i in 0..before {
            assert_ne!(doc.element(i).unwrap().id, wrapper);
            assert_ne!(doc.element(i).unwrap().id, layout);
        }
    }
}
