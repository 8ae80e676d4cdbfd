//! Lowers the `MenuBar` of a window.
//!
//! A window that declares a menu bar is rebuilt as a vertical layout of the
//! native menu bar above a wrapper that holds the window's other children.
//! The window's height then belongs to the wrapper, so every reference to it
//! is retargeted; only the window's own geometry slot keeps its token, so
//! that the window is still sized as a whole.
//!
//! Must be done before inlining: the lowered elements are expanded further.

use vstd::prelude::*;
use vstd::string::StringExecFns;
use crate::diagnostics::{BuildDiagnostics, DiagnosticLevel, DiagnosticModel};
use crate::expression_tree::{token_of, NamedReference};
use crate::langtype::{lookup_type, ElementType, TypeModel};
use crate::object_tree::{
    bare_element, indices, rewrite_document, with_base_type, with_children, Document,
    DocumentModel, ElementModel,
};
use crate::traversal::{all_within, lemma_traversal_visits_the_reachable_once, traversal_order};
use crate::typeloader::{lookup_import, TypeLoader};

verus! {

/// The element types that the lowering builds with.
#[derive(Debug)]
pub struct UsefulMenuComponents {
    /// The native implementation of the menu bar.
    pub menubar_impl: ElementType,
    /// The layout that stacks its children vertically.
    pub vertical_layout: ElementType,
    /// The type of an element that does nothing.
    pub empty: ElementType,
}

/// The element types of the lowering as plain values.
pub ghost struct ComponentsModel {
    pub menubar_impl: TypeModel,
    pub vertical_layout: TypeModel,
    pub empty: TypeModel,
}

impl View for UsefulMenuComponents {
    type V = ComponentsModel;

    open spec fn view(&self) -> ComponentsModel {
        ComponentsModel {
            menubar_impl: self.menubar_impl@,
            vertical_layout: self.vertical_layout@,
            empty: self.empty@,
        }
    }
}

/// Whether the element is a window.
pub open spec fn is_window(e: ElementModel) -> bool {
    e.base_type == TypeModel::Builtin("Window"@)
}

/// Whether the element `index` of `doc` is a menu bar that is yet to be lowered.
pub open spec fn is_menu_bar(doc: DocumentModel, index: int) -> bool {
    0 <= index < doc.elements.len() && doc.elements[index].base_type == TypeModel::Builtin(
        "MenuBar"@,
    )
}

/// Those of `children` that are menu bars, in their order.
pub open spec fn menu_children(doc: DocumentModel, children: Seq<int>) -> Seq<int>
    decreases children.len(),
{
    if children.len() == 0 {
        Seq::empty()
    } else {
        let before = menu_children(doc, children.drop_last());
        if is_menu_bar(doc, children.last()) {
            before.push(children.last())
        } else {
            before
        }
    }
}

/// Those of `children` that are no menu bars, in their order.
pub open spec fn content_children(doc: DocumentModel, children: Seq<int>) -> Seq<int>
    decreases children.len(),
{
    if children.len() == 0 {
        Seq::empty()
    } else {
        let before = content_children(doc, children.drop_last());
        if is_menu_bar(doc, children.last()) {
            before
        } else {
            before.push(children.last())
        }
    }
}

/// The menu bars among the children of the element `win`.
pub open spec fn menus_of(doc: DocumentModel, win: int) -> Seq<int> {
    menu_children(doc, doc.elements[win].children)
}

/// The identifier of the wrapper that takes the content of the window called `id`.
pub open spec fn wrapper_id(id: Seq<char>) -> Seq<char> {
    id + "-child"@
}

/// The identifier of the layout that is put into the window called `id`.
pub open spec fn layout_id(id: Seq<char>) -> Seq<char> {
    id + "-menulayout"@
}

/// The tree after the window `win`, which has a menu bar, is rebuilt: its
/// first menu bar has the native type; a new wrapper, with the identity
/// `doc.elements.len()`, holds the children that are no menu bars; a new
/// layout, with the next identity, holds the menu bar and the wrapper; and
/// the layout is the only child of the window. Further menu bars are in no
/// child list any more.
pub open spec fn restructure_window(
    doc: DocumentModel,
    win: int,
    c: ComponentsModel,
) -> DocumentModel {
    let n = doc.elements.len() as int;
    let w = doc.elements[win];
    let menu = menus_of(doc, win)[0];
    let wrapper = with_children(
        bare_element(wrapper_id(w.id), c.empty, w.enclosing_component, None),
        content_children(doc, w.children),
    );
    let layout = with_children(
        bare_element(layout_id(w.id), c.vertical_layout, w.enclosing_component, None),
        seq![menu, n],
    );
    DocumentModel {
        elements: Seq::new(
            (n + 2) as nat,
            |i: int|
                {
                    let e = if i == menu {
                        with_base_type(doc.elements[i], c.menubar_impl)
                    } else {
                        doc.elements[i]
                    };
                    if i == n {
                        wrapper
                    } else if i == n + 1 {
                        layout
                    } else if i == win {
                        with_children(e, seq![n + 1])
                    } else {
                        e
                    }
                },
        ),
        components: doc.components,
    }
}

/// The document after the window `win` is lowered. A window without a menu
/// bar is left as it is. Otherwise the tree is rebuilt, and every reference
/// to the window's height, anywhere in the document, becomes a reference to
/// the wrapper's height, but for the height slot of the window's own geometry.
pub open spec fn lower_window(doc: DocumentModel, win: int, c: ComponentsModel) -> DocumentModel {
    if menus_of(doc, win).len() == 0 {
        doc
    } else {
        rewrite_document(
            restructure_window(doc, win, c),
            token_of(win, "height"@),
            token_of(doc.elements.len() as int, "height"@),
            Some(win),
        )
    }
}

/// What lowering the window `win` reports: one error, at the second menu
/// bar, where the window has more than one.
pub open spec fn window_diagnostics(doc: DocumentModel, win: int) -> Seq<DiagnosticModel> {
    if menus_of(doc, win).len() > 1 {
        seq![
            DiagnosticModel {
                level: DiagnosticLevel::Error,
                message: "Only one MenuBar is allowed in a Window"@,
                span: doc.elements[menus_of(doc, win)[1]].location,
            },
        ]
    } else {
        Seq::empty()
    }
}

/// Lowers the menu bar of the element `win`, if it has one.
pub fn process_window(
    doc: &mut Document,
    win: usize,
    components: &UsefulMenuComponents,
    diag: &mut BuildDiagnostics,
)
    requires
        old(doc)@.well_formed(),
        win < old(doc)@.elements.len(),
    ensures
        final(doc)@ == lower_window(old(doc)@, win as int, components@),
        final(diag)@ == old(diag)@ + window_diagnostics(old(doc)@, win as int),
        final(doc)@.well_formed(),
{
    let ghost before = doc@;
    let window = doc.element(win).unwrap();
    let mut menus: Vec<usize> = Vec::new();
    let mut rest: Vec<usize> = Vec::new();
    let mut i: usize = 0;
    proof {
        assert(before.elements[win as int].children.take(0) =~= Seq::<int>::empty());
        assert(indices(menus@) =~= Seq::<int>::empty());
        assert(indices(rest@) =~= Seq::<int>::empty());
    }
    while i < window.children.len()
        invariant
            doc@ == before,
            before.well_formed(),
            win < before.elements.len(),
            window@ == before.elements[win as int],
            i <= window.children.len(),
            indices(menus@) == menu_children(before, window@.children.take(i as int)),
            indices(rest@) == content_children(before, window@.children.take(i as int)),
            forall|k: int| 0 <= k < menus@.len() ==> menus@[k] < before.elements.len(),
            forall|k: int| 0 <= k < rest@.len() ==> rest@[k] < before.elements.len(),
        decreases window.children.len() - i,
    {
        let child = window.children[i];
        proof {
            let children = window@.children;
            assert(children[i as int] == child as int);
            assert(children.take(i + 1).drop_last() =~= children.take(i as int));
            assert(children.take(i + 1).last() == child as int);
        }
        let ghost menus_before = indices(menus@);
        let ghost rest_before = indices(rest@);
        let is_menu = match doc.element(child) {
            Some(e) => e.base_type.is_builtin_named("MenuBar"),
            None => false,
        };
        if is_menu {
            menus.push(child);
            assert(indices(menus@) =~= menus_before.push(child as int));
        } else {
            rest.push(child);
            assert(indices(rest@) =~= rest_before.push(child as int));
        }
        i += 1;
    }
    assert(window@.children.take(i as int) =~= window@.children);
    if menus.len() == 0 {
        assert(diag@ + window_diagnostics(before, win as int) =~= diag@);
        return ;
    }
    let menu = menus[0];
    assert(indices(menus@)[0] == menu as int);
    if menus.len() > 1 {
        let second = menus[1];
        assert(indices(menus@)[1] == second as int);
        let location = doc.element(second).unwrap().location;
        diag.push_error("Only one MenuBar is allowed in a Window".to_owned(), location);
    }
    assert(diag@ =~= old(diag)@ + window_diagnostics(before, win as int));
    let component = window.enclosing_component;
    assert(component == before.elements[win as int].enclosing_component);
    assert(component < before.components.len());
    let wrapper_name = window.id.clone().concat("-child");
    let layout_name = window.id.clone().concat("-menulayout");

    doc.set_base_type(menu, components.menubar_impl.clone());
    let wrapper = doc.add_element(wrapper_name, components.empty.clone(), component, None).unwrap();
    doc.set_children(wrapper, rest);
    let layout = doc.add_element(
        layout_name,
        components.vertical_layout.clone(),
        component,
        None,
    ).unwrap();
    let stacked = vec![menu, wrapper];
    assert(indices(stacked@) =~= seq![menu as int, wrapper as int]);
    doc.set_children(layout, stacked);
    let only = vec![layout];
    assert(indices(only@) =~= seq![layout as int]);
    doc.set_children(win, only);
    assert(doc@.elements =~= restructure_window(before, win as int, components@).elements);

    let win_height = NamedReference::new(win, "height");
    let wrapper_height = NamedReference::new(wrapper, "height");
    doc.rewrite_all_keeping(&win_height, &wrapper_height, Some(win));
}

/// A type that the lowering cannot do without.
#[derive(Clone, Copy, Debug, PartialEq, Eq, Structural)]
pub enum MissingType {
    /// `MenuBarImpl` was not imported from `std-widgets.slint`.
    MenuBarImpl,
    /// `VerticalLayout` is no builtin element.
    VerticalLayout,
}

/// The element types that the lowering finds with the loader, or the first
/// of them that is missing: the native menu bar among the cached imports,
/// the vertical layout among the builtin elements, and the no-op type.
pub open spec fn menu_components(loader: &TypeLoader) -> Result<ComponentsModel, MissingType> {
    match lookup_import(loader.imports(), "std-widgets.slint"@, "MenuBarImpl"@) {
        None => Err(MissingType::MenuBarImpl),
        Some(menubar_impl) => match lookup_type(loader.builtins().elements, "VerticalLayout"@) {
            None => Err(MissingType::VerticalLayout),
            Some(vertical_layout) => Ok(
                ComponentsModel { menubar_impl, vertical_layout, empty: loader.builtins().empty },
            ),
        },
    }
}

/// Gathers the element types that the lowering builds with. This is the
/// whole of the lowering's dealings with the loader: once it has succeeded,
/// the tree can be rewritten without waiting for anything.
pub fn resolve_menu_components(type_loader: &TypeLoader) -> (found: Result<
    UsefulMenuComponents,
    MissingType,
>)
    ensures
        found is Ok == menu_components(type_loader) is Ok,
        found is Ok ==> found->Ok_0@ == menu_components(type_loader)->Ok_0,
        found is Err ==> found->Err_0 == menu_components(type_loader)->Err_0,
{
    match type_loader.cached_import("std-widgets.slint", "MenuBarImpl") {
        None => Err(MissingType::MenuBarImpl),
        Some(menubar_impl) => match type_loader.global_type_registry().lookup_builtin_element(
            "VerticalLayout",
        ) {
            None => Err(MissingType::VerticalLayout),
            Some(vertical_layout) => Ok(
                UsefulMenuComponents {
                    menubar_impl,
                    vertical_layout,
                    empty: type_loader.global_type_registry().empty_type(),
                },
            ),
        },
    }
}

/// The document after the element `e` is visited: lowered where it is a
/// window, as it was where it is not.
pub open spec fn visited_element(doc: DocumentModel, c: ComponentsModel, e: int) -> DocumentModel {
    if 0 <= e < doc.elements.len() && is_window(doc.elements[e]) {
        lower_window(doc, e, c)
    } else {
        doc
    }
}

/// What the visit of the element `e` reports.
pub open spec fn visit_diagnostics(doc: DocumentModel, e: int) -> Seq<DiagnosticModel> {
    if 0 <= e < doc.elements.len() && is_window(doc.elements[e]) {
        window_diagnostics(doc, e)
    } else {
        Seq::empty()
    }
}

/// The document after the elements of `order` were visited one after the other.
pub open spec fn lowered_in(doc: DocumentModel, c: ComponentsModel, order: Seq<int>) -> DocumentModel
    decreases order.len(),
{
    if order.len() == 0 {
        doc
    } else {
        lowered_in(visited_element(doc, c, order[0]), c, order.drop_first())
    }
}

/// What the visits of the elements of `order` report, in their order.
pub open spec fn diagnostics_in(
    doc: DocumentModel,
    c: ComponentsModel,
    order: Seq<int>,
) -> Seq<DiagnosticModel>
    decreases order.len(),
{
    if order.len() == 0 {
        Seq::empty()
    } else {
        visit_diagnostics(doc, order[0]) + diagnostics_in(
            visited_element(doc, c, order[0]),
            c,
            order.drop_first(),
        )
    }
}

/// The document after the pass: every element that can be reached from the
/// root of a component when the pass begins is visited once, in the order
/// of the traversal, and lowered where it is a window.
pub open spec fn lowered(doc: DocumentModel, c: ComponentsModel) -> DocumentModel {
    lowered_in(doc, c, traversal_order(doc))
}

/// What the pass reports, in the order of the traversal.
pub open spec fn lowering_diagnostics(doc: DocumentModel, c: ComponentsModel) -> Seq<
    DiagnosticModel,
> {
    diagnostics_in(doc, c, traversal_order(doc))
}

/// Lowers the menu bar of every window of the document, with element types
/// that were gathered before. The windows are found by one traversal of the
/// document as it is when the pass begins, and lowered in its order.
pub fn lower_all_windows(
    doc: &mut Document,
    components: &UsefulMenuComponents,
    diag: &mut BuildDiagnostics,
)
    requires
        old(doc)@.well_formed(),
    ensures
        final(doc)@ == lowered(old(doc)@, components@),
        final(diag)@ == old(diag)@ + lowering_diagnostics(old(doc)@, components@),
        final(doc)@.well_formed(),
{
    let order = doc.traversal_order();
    let ghost all = indices(order@);
    let ghost count = doc@.elements.len();
    proof {
        lemma_traversal_visits_the_reachable_once(doc@);
        assert(all.skip(0) =~= all);
        assert(diag@ + Seq::<DiagnosticModel>::empty() =~= diag@);
    }
    let mut i: usize = 0;
    while i < order.len()
        invariant
            i <= order.len(),
            all == indices(order@),
            all_within(all, count),
            count <= doc@.elements.len(),
            doc@.well_formed(),
            lowered_in(doc@, components@, all.skip(i as int)) == lowered_in(
                old(doc)@,
                components@,
                all,
            ),
            diag@ + diagnostics_in(doc@, components@, all.skip(i as int)) == old(diag)@
                + diagnostics_in(old(doc)@, components@, all),
        decreases order.len() - i,
    {
        let ghost doc_before = doc@;
        let ghost diag_before = diag@;
        let e = order[i];
        proof {
            assert(all[i as int] == e as int);
            assert(all.skip(i as int)[0] == e as int);
            assert(all.skip(i as int).drop_first() =~= all.skip(i + 1));
        }
        let is_a_window = doc.element(e).unwrap().base_type.is_builtin_named("Window");
        if is_a_window {
            process_window(doc, e, components, diag);
        }
        proof {
            lemma_lowering_keeps_elements(doc_before, e as int, components@);
            let rest = diagnostics_in(doc@, components@, all.skip(i + 1));
            let here = visit_diagnostics(doc_before, e as int);
            assert((diag_before + here) + rest =~= diag_before + (here + rest));
        }
        i += 1;
    }
    proof {
        assert(all.skip(i as int) =~= Seq::<int>::empty());
        assert(diag@ + Seq::<DiagnosticModel>::empty() =~= diag@);
    }
}

/// Lowers the menu bar of every window of the document.
///
/// The element types are gathered first. Where one is missing the pass
/// cannot do its work: it gives up before it touches the document or
/// reports anything, and says which type it missed.
pub fn lower_menus(doc: &mut Document, type_loader: &TypeLoader, diag: &mut BuildDiagnostics) -> (outcome:
    Result<(), MissingType>)
    requires
        old(doc)@.well_formed(),
    ensures
        final(doc)@.well_formed(),
        match menu_components(type_loader) {
            Ok(c) => {
                &&& outcome is Ok
                &&& final(doc)@ == lowered(old(doc)@, c)
                &&& final(diag)@ == old(diag)@ + lowering_diagnostics(old(doc)@, c)
            },
            Err(missing) => {
                &&& outcome == Err::<(), MissingType>(missing)
                &&& final(doc)@ == old(doc)@
                &&& final(diag)@ == old(diag)@
            },
        },
{
    match resolve_menu_components(type_loader) {
        Ok(components) => {
            lower_all_windows(doc, &components, diag);
            Ok(())
        },
        Err(missing) => Err(missing),
    }
}

/// Lowering a window never takes an element away: the document has at least
/// as many elements afterwards.
pub proof fn lemma_lowering_keeps_elements(doc: DocumentModel, win: int, c: ComponentsModel)
    ensures
        lower_window(doc, win, c).elements.len() >= doc.elements.len(),
{
}

} // verus!
