//! What holds of the menu lowering, proved from its definition.

use vstd::prelude::*;
use crate::diagnostics::{DiagnosticLevel, DiagnosticModel};
use crate::expression_tree::{
    lemma_rewrite_is_exhaustive, lemma_rewrite_keeps_references_within, occurrences,
    references_within, rewrite_expression, token_of,
};
use crate::langtype::TypeModel;
use crate::object_tree::{
    element_references_within, has_no_dangling_reference, has_unique_ids, with_children,
    with_element, DocumentModel,
};
use crate::passes::lower_menus::{
    content_children, diagnostics_in, is_menu_bar, is_window, layout_id, lower_window, lowered,
    lowered_in, lowering_diagnostics, menu_children, menus_of, visit_diagnostics, visited_element,
    window_diagnostics, wrapper_id, ComponentsModel,
};
use crate::traversal::traversal_order;

verus! {

/// A window without a menu bar is left as it is, and nothing is reported.
pub proof fn lemma_window_without_menu_is_untouched(doc: DocumentModel, win: int, c: ComponentsModel)
    requires
        menus_of(doc, win).len() == 0,
    ensures
        lower_window(doc, win, c) == doc,
        window_diagnostics(doc, win) == Seq::<DiagnosticModel>::empty(),
{
}

/// Where no window of the document has a menu bar, visiting elements in
/// whatever order leaves the document as it is and reports nothing.
pub proof fn lemma_visits_without_menus(doc: DocumentModel, c: ComponentsModel, order: Seq<int>)
    requires
        forall|i: int|
            0 <= i < doc.elements.len() && is_window(doc.elements[i]) ==> (#[trigger] menus_of(
                doc,
                i,
            )).len() == 0,
    ensures
        lowered_in(doc, c, order) == doc,
        diagnostics_in(doc, c, order) == Seq::<DiagnosticModel>::empty(),
    decreases order.len(),
{
    if order.len() > 0 {
        let e = order[0];
        if 0 <= e < doc.elements.len() && is_window(doc.elements[e]) {
            assert(menus_of(doc, e).len() == 0);
        }
        lemma_visits_without_menus(doc, c, order.drop_first());
        assert(visit_diagnostics(doc, e) + Seq::<DiagnosticModel>::empty()
            =~= Seq::<DiagnosticModel>::empty());
    }
}

/// A document in which no window has a menu bar is left as it is by the
/// whole pass, and nothing is reported.
pub proof fn lemma_document_without_menus_is_untouched(doc: DocumentModel, c: ComponentsModel)
    requires
        forall|i: int|
            0 <= i < doc.elements.len() && is_window(doc.elements[i]) ==> (#[trigger] menus_of(
                doc,
                i,
            )).len() == 0,
    ensures
        lowered(doc, c) == doc,
        lowering_diagnostics(doc, c) == Seq::<DiagnosticModel>::empty(),
{
    lemma_visits_without_menus(doc, c, traversal_order(doc));
}

/// Every child is either a menu bar or content, and every menu bar among
/// the children is an element of the document.
pub proof fn lemma_children_are_partitioned(doc: DocumentModel, children: Seq<int>)
    ensures
        menu_children(doc, children).len() + content_children(doc, children).len()
            == children.len(),
        forall|k: int|
            0 <= k < menu_children(doc, children).len() ==> is_menu_bar(
                doc,
                #[trigger] menu_children(doc, children)[k],
            ),
    decreases children.len(),
{
    if children.len() > 0 {
        lemma_children_are_partitioned(doc, children.drop_last());
    }
}

/// Where none of the children is a menu bar, all of them are content.
pub proof fn lemma_children_without_menu(doc: DocumentModel, children: Seq<int>)
    requires
        menu_children(doc, children).len() == 0,
    ensures
        content_children(doc, children) == children,
        forall|k: int| 0 <= k < children.len() ==> !is_menu_bar(doc, #[trigger] children[k]),
    decreases children.len(),
{
    if children.len() > 0 {
        lemma_children_without_menu(doc, children.drop_last());
        assert(children.drop_last().push(children.last()) =~= children);
    }
}

/// Where exactly one of the children is a menu bar, the content is the
/// children without it, in their order.
pub proof fn lemma_content_is_children_without_menu(
    doc: DocumentModel,
    children: Seq<int>,
    position: int,
)
    requires
        0 <= position < children.len(),
        is_menu_bar(doc, children[position]),
        menu_children(doc, children).len() == 1,
    ensures
        menu_children(doc, children) == seq![children[position]],
        content_children(doc, children) == children.remove(position),
    decreases children.len(),
{
    let init = children.drop_last();
    if position == children.len() - 1 {
        assert(menu_children(doc, init).len() == 0);
        lemma_children_without_menu(doc, init);
        assert(menu_children(doc, children) =~= seq![children[position]]);
        assert(children.remove(position) =~= init);
    } else {
        lemma_children_are_partitioned(doc, init);
        if is_menu_bar(doc, children.last()) {
            assert(menu_children(doc, init).len() == 0);
            lemma_children_without_menu(doc, init);
            assert(!is_menu_bar(doc, init[position]));
        } else {
            lemma_content_is_children_without_menu(doc, init, position);
            assert(init.remove(position).push(children.last()) =~= children.remove(position));
        }
    }
}

/// After a window with a menu bar is lowered, the window has exactly one
/// child, a vertical layout; the layout's children are the menu bar, now of
/// the native type, and the wrapper, in this order; and the wrapper's
/// children are the window's former children that are no menu bars, in their
/// order. The two new elements belong to the window's component.
pub proof fn lemma_lowered_window_shape(doc: DocumentModel, win: int, c: ComponentsModel)
    requires
        doc.well_formed(),
        0 <= win < doc.elements.len(),
        menus_of(doc, win).len() > 0,
    ensures
        ({
            let n = doc.elements.len() as int;
            let after = lower_window(doc, win, c);
            let menu = menus_of(doc, win)[0];
            &&& after.elements.len() == n + 2
            &&& after.components == doc.components
            &&& 0 <= menu < n
            &&& after.elements[win].children == seq![n + 1]
            &&& after.elements[n + 1].children == seq![menu, n]
            &&& after.elements[n + 1].base_type == c.vertical_layout
            &&& after.elements[n + 1].id == layout_id(doc.elements[win].id)
            &&& after.elements[n + 1].enclosing_component == doc.elements[win].enclosing_component
            &&& after.elements[menu].base_type == c.menubar_impl
            &&& after.elements[menu].id == doc.elements[menu].id
            &&& after.elements[menu].children == if menu == win {
                seq![n + 1]
            } else {
                doc.elements[menu].children
            }
            &&& after.elements[n].children == content_children(doc, doc.elements[win].children)
            &&& after.elements[n].base_type == c.empty
            &&& after.elements[n].id == wrapper_id(doc.elements[win].id)
            &&& after.elements[n].enclosing_component == doc.elements[win].enclosing_component
            &&& after.well_formed()
        }),
{
    let n = doc.elements.len() as int;
    let after = lower_window(doc, win, c);
    let children = doc.elements[win].children;
    lemma_children_are_partitioned(doc, children);
    let menu = menus_of(doc, win)[0];
    assert(is_menu_bar(doc, menu));
    lemma_content_within(doc, children);
    assert forall|i: int, j: int|
        0 <= i < after.elements.len() && 0 <= j < after.elements[i].children.len() implies 0
        <= #[trigger] after.elements[i].children[j] < after.elements.len() by {
        if i < n && i != win {
            assert(after.elements[i].children[j] == doc.elements[i].children[j]);
        }
    }
}

/// After a window with exactly one menu bar, at `position` among its
/// children, is lowered, the window has exactly one child, the layout; the
/// layout's children are the menu bar and the wrapper, in this order; the
/// wrapper's children are the window's former children without the menu
/// bar, in their order; and nothing is reported.
pub proof fn lemma_window_with_one_menu(
    doc: DocumentModel,
    win: int,
    c: ComponentsModel,
    position: int,
)
    requires
        doc.well_formed(),
        0 <= win < doc.elements.len(),
        menus_of(doc, win).len() == 1,
        0 <= position < doc.elements[win].children.len(),
        is_menu_bar(doc, doc.elements[win].children[position]),
    ensures
        ({
            let n = doc.elements.len() as int;
            let after = lower_window(doc, win, c);
            let children = doc.elements[win].children;
            &&& after.elements[win].children == seq![n + 1]
            &&& after.elements[n + 1].base_type == c.vertical_layout
            &&& after.elements[n + 1].children == seq![children[position], n]
            &&& after.elements[children[position]].base_type == c.menubar_impl
            &&& after.elements[n].base_type == c.empty
            &&& after.elements[n].children == children.remove(position)
            &&& window_diagnostics(doc, win) == Seq::<DiagnosticModel>::empty()
        }),
{
    lemma_lowered_window_shape(doc, win, c);
    lemma_content_is_children_without_menu(doc, doc.elements[win].children, position);
}

/// The content among the children of a well-formed document's element are
/// elements of the document.
pub proof fn lemma_content_within(doc: DocumentModel, children: Seq<int>)
    requires
        forall|k: int| 0 <= k < children.len() ==> 0 <= #[trigger] children[k] < doc.elements.len(),
    ensures
        forall|k: int|
            0 <= k < content_children(doc, children).len() ==> 0 <= #[trigger] content_children(
                doc,
                children,
            )[k] < doc.elements.len(),
    decreases children.len(),
{
    if children.len() > 0 {
        let init = children.drop_last();
        assert forall|k: int| 0 <= k < init.len() implies 0 <= #[trigger] init[k]
            < doc.elements.len() by {
            assert(init[k] == children[k]);
        }
        lemma_content_within(doc, init);
        assert(0 <= children[children.len() - 1] < doc.elements.len());
        let content = content_children(doc, children);
        let before = content_children(doc, init);
        assert forall|k: int| 0 <= k < content.len() implies 0 <= #[trigger] content[k]
            < doc.elements.len() by {
            if k < before.len() {
                assert(content[k] == before[k]);
            } else {
                assert(content[k] == children.last());
            }
        }
    }
}

/// Once a window is lowered it has no menu bar among its children any
/// more, as long as the layout that is put there is no menu bar itself.
pub proof fn lemma_lowered_window_has_no_menu_bar(doc: DocumentModel, win: int, c: ComponentsModel)
    requires
        0 <= win < doc.elements.len(),
        c.vertical_layout != TypeModel::Builtin("MenuBar"@),
    ensures
        menus_of(lower_window(doc, win, c), win).len() == 0,
{
    if menus_of(doc, win).len() > 0 {
        let after = lower_window(doc, win, c);
        let n = doc.elements.len() as int;
        let only = after.elements[win].children;
        assert(only == seq![n + 1]);
        assert(only.drop_last() =~= Seq::<int>::empty());
        assert(menu_children(after, only.drop_last()).len() == 0);
        assert(only.last() == n + 1);
        assert(after.elements[n + 1].base_type == c.vertical_layout);
        assert(!is_menu_bar(after, only.last()));
        assert(menu_children(after, only).len() == 0);
    }
}

/// Where none of the children is a menu bar, there are no menu bars among them.
pub proof fn lemma_no_menu_among_children(doc: DocumentModel, children: Seq<int>)
    requires
        forall|k: int| 0 <= k < children.len() ==> !is_menu_bar(doc, #[trigger] children[k]),
    ensures
        menu_children(doc, children).len() == 0,
    decreases children.len(),
{
    if children.len() > 0 {
        let init = children.drop_last();
        assert forall|k: int| 0 <= k < init.len() implies !is_menu_bar(doc, #[trigger] init[k]) by {
            assert(init[k] == children[k]);
        }
        lemma_no_menu_among_children(doc, init);
        assert(!is_menu_bar(doc, children[children.len() - 1]));
    }
}

/// Lowering one window gives no other element a menu bar: an element
/// without a menu bar among its children still has none after another
/// element was lowered.
pub proof fn lemma_lowering_spares_other_windows(
    doc: DocumentModel,
    win: int,
    c: ComponentsModel,
    other: int,
)
    requires
        doc.well_formed(),
        0 <= win < doc.elements.len(),
        0 <= other < doc.elements.len(),
        other != win,
        menus_of(doc, other).len() == 0,
    ensures
        menus_of(lower_window(doc, win, c), other).len() == 0,
{
    if menus_of(doc, win).len() > 0 {
        let after = lower_window(doc, win, c);
        let n = doc.elements.len() as int;
        let menu = menus_of(doc, win)[0];
        lemma_children_are_partitioned(doc, doc.elements[win].children);
        assert(is_menu_bar(doc, menu));
        let children = doc.elements[other].children;
        lemma_children_without_menu(doc, children);
        assert(after.elements[other].children == children);
        assert forall|k: int| 0 <= k < children.len() implies !is_menu_bar(
            after,
            #[trigger] children[k],
        ) by {
            let x = children[k];
            assert(0 <= doc.elements[other].children[k] < n);
            assert(!is_menu_bar(doc, x));
            assert(x != menu);
            assert(after.elements[x].base_type == doc.elements[x].base_type);
        }
        lemma_no_menu_among_children(after, children);
    }
}

/// After elements were visited, a window has no menu bar among its children
/// if it was one of them, or had none before. This needs the element types
/// of the lowering to be what they are meant to be: the layout no menu bar,
/// and the native menu bar no window.
pub proof fn lemma_visited_windows_have_no_menu_bar(
    doc: DocumentModel,
    c: ComponentsModel,
    order: Seq<int>,
    window: int,
)
    requires
        doc.well_formed(),
        c.vertical_layout != TypeModel::Builtin("MenuBar"@),
        c.menubar_impl != TypeModel::Builtin("Window"@),
        0 <= window < doc.elements.len(),
        is_window(doc.elements[window]),
        order.contains(window) || menus_of(doc, window).len() == 0,
    ensures
        0 <= window < lowered_in(doc, c, order).elements.len(),
        is_window(lowered_in(doc, c, order).elements[window]),
        menus_of(lowered_in(doc, c, order), window).len() == 0,
    decreases order.len(),
{
    if order.len() > 0 {
        let first = order[0];
        let next = visited_element(doc, c, first);
        let rest = order.drop_first();
        if 0 <= first < doc.elements.len() && is_window(doc.elements[first]) {
            if menus_of(doc, first).len() > 0 {
                lemma_lowered_window_shape(doc, first, c);
            }
            lemma_window_stays_window(doc, first, c, window);
            if first == window {
                lemma_lowered_window_has_no_menu_bar(doc, first, c);
            } else if menus_of(doc, window).len() == 0 {
                lemma_lowering_spares_other_windows(doc, first, c, window);
            }
        }
        if first != window && order.contains(window) {
            let at = choose|at: int| 0 <= at < order.len() && order[at] == window;
            assert(rest[at - 1] == window);
        }
        lemma_visited_windows_have_no_menu_bar(next, c, rest, window);
    }
}

/// Lowering a window leaves every other window a window, as long as the
/// native menu bar is no window.
pub proof fn lemma_window_stays_window(doc: DocumentModel, win: int, c: ComponentsModel, other: int)
    requires
        0 <= win < doc.elements.len(),
        0 <= other < doc.elements.len(),
        c.menubar_impl != TypeModel::Builtin("Window"@),
        is_window(doc.elements[other]),
    ensures
        is_window(lower_window(doc, win, c).elements[other]),
{
    reveal_strlit("Window");
    reveal_strlit("MenuBar");
    assert("Window"@ != "MenuBar"@) by {
        assert("Window"@.len() == 6);
        assert("MenuBar"@.len() == 7);
    }
    if menus_of(doc, win).len() > 0 {
        lemma_children_are_partitioned(doc, doc.elements[win].children);
        assert(is_menu_bar(doc, menus_of(doc, win)[0]));
    }
}

/// After the pass, no window that the traversal reaches has a menu bar
/// among its children: every menu construct was replaced. This needs the
/// element types of the lowering to be what they are meant to be: the layout
/// no menu bar, and the native menu bar no window.
pub proof fn lemma_pass_leaves_no_menu_bar(doc: DocumentModel, c: ComponentsModel, window: int)
    requires
        doc.well_formed(),
        c.vertical_layout != TypeModel::Builtin("MenuBar"@),
        c.menubar_impl != TypeModel::Builtin("Window"@),
        traversal_order(doc).contains(window),
        0 <= window < doc.elements.len(),
        is_window(doc.elements[window]),
    ensures
        0 <= window < lowered(doc, c).elements.len(),
        is_window(lowered(doc, c).elements[window]),
        menus_of(lowered(doc, c), window).len() == 0,
{
    lemma_visited_windows_have_no_menu_bar(doc, c, traversal_order(doc), window);
}

/// A window with more than one menu bar gets exactly one error, which points
/// at the second menu bar.
pub proof fn lemma_extra_menus_give_one_error(doc: DocumentModel, win: int)
    requires
        menus_of(doc, win).len() > 1,
    ensures
        window_diagnostics(doc, win).len() == 1,
        window_diagnostics(doc, win)[0].level == DiagnosticLevel::Error,
        window_diagnostics(doc, win)[0].message == "Only one MenuBar is allowed in a Window"@,
        window_diagnostics(doc, win)[0].span == doc.elements[menus_of(doc, win)[1]].location,
{
}

/// The children with every menu bar after the first taken out.
pub open spec fn without_extra_menus(doc: DocumentModel, children: Seq<int>) -> Seq<int>
    decreases children.len(),
{
    if children.len() == 0 {
        Seq::empty()
    } else {
        let before = without_extra_menus(doc, children.drop_last());
        if is_menu_bar(doc, children.last()) && menu_children(doc, children.drop_last()).len() > 0 {
            before
        } else {
            before.push(children.last())
        }
    }
}

/// The document in which the element `win` has lost every menu bar after
/// the first from its children.
pub open spec fn with_first_menu_only(doc: DocumentModel, win: int) -> DocumentModel {
    with_element(
        doc,
        win,
        with_children(doc.elements[win], without_extra_menus(doc, doc.elements[win].children)),
    )
}

/// Taking the extra menu bars out of a child list leaves the first menu bar
/// and all of the content.
pub proof fn lemma_without_extra_menus(doc: DocumentModel, other: DocumentModel, children: Seq<int>)
    requires
        forall|i: int| is_menu_bar(doc, i) == is_menu_bar(other, i),
    ensures
        content_children(other, without_extra_menus(doc, children)) == content_children(
            doc,
            children,
        ),
        menu_children(other, without_extra_menus(doc, children)) == if menu_children(
            doc,
            children,
        ).len() > 0 {
            seq![menu_children(doc, children)[0]]
        } else {
            Seq::<int>::empty()
        },
    decreases children.len(),
{
    if children.len() > 0 {
        let init = children.drop_last();
        lemma_without_extra_menus(doc, other, init);
        let kept = without_extra_menus(doc, init);
        if is_menu_bar(doc, children.last()) && menu_children(doc, init).len() > 0 {
        } else {
            assert(kept.push(children.last()).drop_last() =~= kept);
            assert(is_menu_bar(other, children.last()) == is_menu_bar(doc, children.last()));
            if is_menu_bar(doc, children.last()) {
                assert(menu_children(other, kept.push(children.last())) =~= seq![children.last()]);
            }
        }
    }
}

/// A window with several menu bars is lowered as if only the first of them
/// had been among its children.
pub proof fn lemma_extra_menus_are_dropped(doc: DocumentModel, win: int, c: ComponentsModel)
    requires
        doc.well_formed(),
        0 <= win < doc.elements.len(),
        menus_of(doc, win).len() > 1,
    ensures
        menus_of(with_first_menu_only(doc, win), win) == seq![menus_of(doc, win)[0]],
        lower_window(doc, win, c) == lower_window(with_first_menu_only(doc, win), win, c),
{
    let other = with_first_menu_only(doc, win);
    assert forall|i: int| is_menu_bar(doc, i) == is_menu_bar(other, i) by {
        if 0 <= i < doc.elements.len() {
            assert(other.elements[i].base_type == doc.elements[i].base_type);
        }
    }
    lemma_without_extra_menus(doc, other, doc.elements[win].children);
    assert(other.elements[win].children == without_extra_menus(doc, doc.elements[win].children));
    let a = lower_window(doc, win, c);
    let b = lower_window(other, win, c);
    assert(a.elements =~= b.elements);
}

/// The rewrite of the window's height is exhaustive. After a window with a
/// menu bar is lowered, every binding of every element that was in the
/// document holds its former expression with each reference to the window's
/// height replaced by one to the wrapper's height: no reference to the
/// window's height is left in it, and the wrapper's height stands wherever
/// the window's stood. The height slot of the window's own geometry still
/// holds the token that it held before.
pub proof fn lemma_height_references_follow_content(
    doc: DocumentModel,
    win: int,
    c: ComponentsModel,
    element: int,
    binding: int,
)
    requires
        0 <= win < doc.elements.len(),
        menus_of(doc, win).len() > 0,
        0 <= element < doc.elements.len(),
        0 <= binding < doc.elements[element].bindings.len(),
    ensures
        ({
            let after = lower_window(doc, win, c);
            let window_height = token_of(win, "height"@);
            let wrapper_height = token_of(doc.elements.len() as int, "height"@);
            let was = doc.elements[element].bindings[binding];
            let now = after.elements[element].bindings[binding];
            &&& after.elements[element].bindings.len() == doc.elements[element].bindings.len()
            &&& now.property == was.property
            &&& now.expression == rewrite_expression(was.expression, window_height, wrapper_height)
            &&& occurrences(now.expression, window_height) == 0
            &&& occurrences(now.expression, wrapper_height) == occurrences(
                was.expression,
                window_height,
            ) + occurrences(was.expression, wrapper_height)
            &&& after.elements[win].geometry_props is Some == doc.elements[win].geometry_props is Some
            &&& doc.elements[win].geometry_props is Some
                ==> after.elements[win].geometry_props->0.height
                == doc.elements[win].geometry_props->0.height
        }),
{
    let window_height = token_of(win, "height"@);
    let wrapper_height = token_of(doc.elements.len() as int, "height"@);
    lemma_rewrite_is_exhaustive(
        doc.elements[element].bindings[binding].expression,
        window_height,
        wrapper_height,
    );
}

/// Lowering a window leaves no token dangling: where every token of the
/// document denoted one of its elements before, every token does so after.
pub proof fn lemma_lowering_leaves_no_dangling_reference(
    doc: DocumentModel,
    win: int,
    c: ComponentsModel,
)
    requires
        0 <= win < doc.elements.len(),
        has_no_dangling_reference(doc),
    ensures
        has_no_dangling_reference(lower_window(doc, win, c)),
{
    if menus_of(doc, win).len() > 0 {
        let n = doc.elements.len();
        let after = lower_window(doc, win, c);
        let from = token_of(win, "height"@);
        let to = token_of(n as int, "height"@);
        assert forall|i: int| 0 <= i < after.elements.len() implies element_references_within(
            #[trigger] after.elements[i],
            after.elements.len(),
        ) by {
            if i < n {
                let was = doc.elements[i];
                assert(element_references_within(was, n));
                assert forall|j: int| 0 <= j < after.elements[i].bindings.len() implies references_within(
                    (#[trigger] after.elements[i].bindings[j]).expression,
                    after.elements.len(),
                ) by {
                    assert(references_within(was.bindings[j].expression, n));
                    lemma_rewrite_keeps_references_within(
                        was.bindings[j].expression,
                        from,
                        to,
                        n,
                        n + 2,
                    );
                }
            }
        }
    }
}

/// The pass leaves no token dangling.
pub proof fn lemma_visits_leave_no_dangling_reference(
    doc: DocumentModel,
    c: ComponentsModel,
    order: Seq<int>,
)
    requires
        has_no_dangling_reference(doc),
    ensures
        has_no_dangling_reference(lowered_in(doc, c, order)),
    decreases order.len(),
{
    if order.len() > 0 {
        let e = order[0];
        if 0 <= e < doc.elements.len() && is_window(doc.elements[e]) {
            lemma_lowering_leaves_no_dangling_reference(doc, e, c);
        }
        lemma_visits_leave_no_dangling_reference(
            visited_element(doc, c, e),
            c,
            order.drop_first(),
        );
    }
}

/// Whether the identifier holds no hyphen.
pub open spec fn is_hyphen_free(id: Seq<char>) -> bool {
    forall|k: int| 0 <= k < id.len() ==> #[trigger] id[k] != '-'
}

/// The identifiers of the two synthetic elements of a window collide with
/// no identifier that is free of hyphens, and not with each other.
pub proof fn lemma_synthetic_ids_are_fresh(id: Seq<char>, other: Seq<char>)
    requires
        is_hyphen_free(other),
    ensures
        wrapper_id(id) != other,
        layout_id(id) != other,
        wrapper_id(id) != layout_id(id),
{
    reveal_strlit("-child");
    reveal_strlit("-menulayout");
    assert(wrapper_id(id)[id.len() as int] == '-');
    assert(layout_id(id)[id.len() as int] == '-');
    assert(wrapper_id(id).len() != layout_id(id).len());
}

/// The synthetic identifiers of different windows differ: a wrapper's
/// identifier is never a layout's, and windows with different identifiers
/// get different wrappers and different layouts.
pub proof fn lemma_synthetic_ids_tell_windows_apart(a: Seq<char>, b: Seq<char>)
    ensures
        wrapper_id(a) != layout_id(b),
        a != b ==> wrapper_id(a) != wrapper_id(b),
        a != b ==> layout_id(a) != layout_id(b),
{
    reveal_strlit("-child");
    reveal_strlit("-menulayout");
    assert(wrapper_id(a).last() == 'd');
    assert(layout_id(b).last() == 't');
    if wrapper_id(a) == wrapper_id(b) {
        assert(a.len() == b.len()) by {
            assert(wrapper_id(a).len() == a.len() + 6);
            assert(wrapper_id(b).len() == b.len() + 6);
        }
        assert(a =~= b) by {
            assert forall|k: int| 0 <= k < a.len() implies a[k] == b[k] by {
                assert(wrapper_id(a)[k] == a[k]);
                assert(wrapper_id(b)[k] == b[k]);
            }
        }
    }
    if layout_id(a) == layout_id(b) {
        assert(a.len() == b.len()) by {
            assert(layout_id(a).len() == a.len() + 11);
            assert(layout_id(b).len() == b.len() + 11);
        }
        assert(a =~= b) by {
            assert forall|k: int| 0 <= k < a.len() implies a[k] == b[k] by {
                assert(layout_id(a)[k] == a[k]);
                assert(layout_id(b)[k] == b[k]);
            }
        }
    }
}

/// In a document whose identifiers are free of hyphens, the two elements
/// that the lowering of a window makes get identifiers that no element of
/// the document has, and that differ from each other.
pub proof fn lemma_synthetic_elements_have_fresh_ids(
    doc: DocumentModel,
    win: int,
    c: ComponentsModel,
    other: int,
)
    requires
        0 <= win < doc.elements.len(),
        menus_of(doc, win).len() > 0,
        0 <= other < doc.elements.len(),
        is_hyphen_free(doc.elements[other].id),
    ensures
        ({
            let n = doc.elements.len() as int;
            let after = lower_window(doc, win, c);
            &&& after.elements[other].id == doc.elements[other].id
            &&& after.elements[n].id != after.elements[other].id
            &&& after.elements[n + 1].id != after.elements[other].id
            &&& after.elements[n].id != after.elements[n + 1].id
        }),
{
    lemma_synthetic_ids_are_fresh(doc.elements[win].id, doc.elements[other].id);
}

/// Lowering a window keeps the identifiers unique within each component,
/// where no element of the window's component has a hyphen in its
/// identifier.
pub proof fn lemma_lowering_keeps_ids_unique(doc: DocumentModel, win: int, c: ComponentsModel)
    requires
        0 <= win < doc.elements.len(),
        has_unique_ids(doc),
        forall|i: int|
            0 <= i < doc.elements.len() && (#[trigger] doc.elements[i]).enclosing_component
                == doc.elements[win].enclosing_component ==> is_hyphen_free(doc.elements[i].id),
    ensures
        has_unique_ids(lower_window(doc, win, c)),
{
    if menus_of(doc, win).len() > 0 {
        let n = doc.elements.len() as int;
        let after = lower_window(doc, win, c);
        let own = doc.elements[win].id;
        assert forall|i: int, j: int|
            0 <= i < after.elements.len() && 0 <= j < after.elements.len() && i != j && (
            #[trigger] after.elements[i]).enclosing_component == (
            #[trigger] after.elements[j]).enclosing_component implies after.elements[i].id
            != after.elements[j].id by {
            if i < n {
                assert(after.elements[i].id == doc.elements[i].id);
                assert(after.elements[i].enclosing_component
                    == doc.elements[i].enclosing_component);
            }
            if j < n {
                assert(after.elements[j].id == doc.elements[j].id);
                assert(after.elements[j].enclosing_component
                    == doc.elements[j].enclosing_component);
            }
            if i < n && j >= n {
                lemma_synthetic_ids_are_fresh(own, doc.elements[i].id);
            } else if j < n && i >= n {
                lemma_synthetic_ids_are_fresh(own, doc.elements[j].id);
            } else if i >= n && j >= n {
                lemma_synthetic_ids_are_fresh(own, Seq::<char>::empty());
            }
        }
    }
}

} // verus!
