//! The element tree: documents, components and elements.
//!
//! A document keeps its elements in one table, in the order in which they
//! were made. An element's identity is its position in that table; it never
//! changes and is never reused, so a child list, a component's root and a
//! named reference all name elements by it. An element that a pass takes out
//! of every child list is dropped from the tree: nothing leads to it any more.

use vstd::prelude::*;
use crate::diagnostics::SourceLocation;
use crate::expression_tree::{
    references_within, replace_reference, rewrite_expression, token_of, Expression,
    ExpressionModel, NamedReference, ReferenceModel,
};
use crate::langtype::{str_equal, ElementType, TypeModel};

verus! {

/// An expression bound to a property of an element.
#[derive(Debug)]
pub struct Binding {
    pub property: String,
    pub expression: Expression,
}

/// A binding as plain values.
pub ghost struct BindingModel {
    pub property: Seq<char>,
    pub expression: ExpressionModel,
}

impl View for Binding {
    type V = BindingModel;

    open spec fn view(&self) -> BindingModel {
        BindingModel { property: self.property@, expression: self.expression@ }
    }
}

/// The geometry slots of an element: the tokens that the layout machinery
/// reads the element's own size from.
#[derive(Debug)]
pub struct GeometryProps {
    pub width: NamedReference,
    pub height: NamedReference,
}

/// Geometry slots as plain values.
pub ghost struct GeometryModel {
    pub width: ReferenceModel,
    pub height: ReferenceModel,
}

impl View for GeometryProps {
    type V = GeometryModel;

    open spec fn view(&self) -> GeometryModel {
        GeometryModel { width: self.width@, height: self.height@ }
    }
}

/// One instantiated widget or construct.
#[derive(Debug)]
pub struct Element {
    /// The identifier, used in diagnostics and to name synthetic elements.
    pub id: String,
    pub base_type: ElementType,
    /// The component that the element belongs to, by its position in the document.
    pub enclosing_component: usize,
    /// The children, in rendering order.
    pub children: Vec<usize>,
    pub bindings: Vec<Binding>,
    /// The names of the properties that the element declares.
    pub property_declarations: Vec<String>,
    pub geometry_props: Option<GeometryProps>,
    /// Where the element stands in the source; `None` for a synthetic element.
    pub location: Option<SourceLocation>,
}

/// An element as plain values.
pub ghost struct ElementModel {
    pub id: Seq<char>,
    pub base_type: TypeModel,
    pub enclosing_component: int,
    pub children: Seq<int>,
    pub bindings: Seq<BindingModel>,
    pub property_declarations: Seq<Seq<char>>,
    pub geometry_props: Option<GeometryModel>,
    pub location: Option<SourceLocation>,
}

/// A list of names as plain values.
pub open spec fn names(list: Seq<String>) -> Seq<Seq<char>> {
    list.map_values(|s: String| s@)
}

/// A list of element identities as plain values.
pub open spec fn indices(list: Seq<usize>) -> Seq<int> {
    list.map_values(|c: usize| c as int)
}

/// The geometry slots as plain values.
pub open spec fn geometry_model(props: Option<GeometryProps>) -> Option<GeometryModel> {
    match props {
        Some(g) => Some(g@),
        None => None,
    }
}

impl View for Element {
    type V = ElementModel;

    open spec fn view(&self) -> ElementModel {
        ElementModel {
            id: self.id@,
            base_type: self.base_type@,
            enclosing_component: self.enclosing_component as int,
            children: indices(self.children@),
            bindings: self.bindings@.map_values(|b: Binding| b@),
            property_declarations: names(self.property_declarations@),
            geometry_props: geometry_model(self.geometry_props),
            location: self.location,
        }
    }
}

/// A component: a named tree of elements.
#[derive(Debug)]
pub struct Component {
    pub id: String,
    /// The root of the component's tree.
    pub root_element: usize,
}

/// A component as plain values.
pub ghost struct ComponentModel {
    pub id: Seq<char>,
    pub root_element: int,
}

impl View for Component {
    type V = ComponentModel;

    open spec fn view(&self) -> ComponentModel {
        ComponentModel { id: self.id@, root_element: self.root_element as int }
    }
}

/// A document as plain values.
pub ghost struct DocumentModel {
    pub elements: Seq<ElementModel>,
    pub components: Seq<ComponentModel>,
}

impl DocumentModel {
    /// No reference between the parts of the document dangles: every child,
    /// every component's root and every element's enclosing component exists.
    pub open spec fn well_formed(self) -> bool {
        &&& forall|i: int, j: int|
            0 <= i < self.elements.len() && 0 <= j < self.elements[i].children.len() ==> 0
                <= #[trigger] self.elements[i].children[j] < self.elements.len()
        &&& forall|i: int|
            0 <= i < self.elements.len() ==> 0 <= #[trigger] self.elements[i].enclosing_component
                < self.components.len()
        &&& forall|c: int|
            0 <= c < self.components.len() ==> 0 <= #[trigger] self.components[c].root_element
                < self.elements.len()
    }
}

/// Whether every token that the element holds, in a binding or in a
/// geometry slot, denotes one of the first `n` elements.
pub open spec fn element_references_within(e: ElementModel, n: nat) -> bool {
    &&& forall|j: int|
        0 <= j < e.bindings.len() ==> references_within((#[trigger] e.bindings[j]).expression, n)
    &&& e.geometry_props is Some ==> {
        &&& 0 <= e.geometry_props->0.width.element < n
        &&& 0 <= e.geometry_props->0.height.element < n
    }
}

/// Whether no token in the document dangles: each one denotes an element of
/// the document.
pub open spec fn has_no_dangling_reference(doc: DocumentModel) -> bool {
    forall|i: int|
        0 <= i < doc.elements.len() ==> element_references_within(
            #[trigger] doc.elements[i],
            doc.elements.len(),
        )
}

/// Whether the identifiers are unique within each component: no two
/// elements of one component have the same.
pub open spec fn has_unique_ids(doc: DocumentModel) -> bool {
    forall|i: int, j: int|
        0 <= i < doc.elements.len() && 0 <= j < doc.elements.len() && i != j && (
        #[trigger] doc.elements[i]).enclosing_component == (
        #[trigger] doc.elements[j]).enclosing_component ==> doc.elements[i].id
            != doc.elements[j].id
}

/// Whether `name` is one of the geometry slots that every element has.
pub open spec fn is_geometry_property(name: Seq<char>) -> bool {
    name == "x"@ || name == "y"@ || name == "width"@ || name == "height"@
}

/// Whether `name` is among the declared names.
pub open spec fn is_declared(declarations: Seq<Seq<char>>, name: Seq<char>) -> bool {
    declarations.contains(name)
}

/// The geometry slots with `from` replaced by `to`; the height slot is left
/// as it is where `keep_height` is set.
pub open spec fn rewrite_geometry(
    props: Option<GeometryModel>,
    from: ReferenceModel,
    to: ReferenceModel,
    keep_height: bool,
) -> Option<GeometryModel> {
    match props {
        Some(g) => Some(
            GeometryModel {
                width: replace_reference(g.width, from, to),
                height: if keep_height {
                    g.height
                } else {
                    replace_reference(g.height, from, to)
                },
            },
        ),
        None => None,
    }
}

/// The bindings with every occurrence of `from` replaced by `to`.
pub open spec fn rewrite_bindings(
    bindings: Seq<BindingModel>,
    from: ReferenceModel,
    to: ReferenceModel,
) -> Seq<BindingModel> {
    Seq::new(
        bindings.len(),
        |j: int|
            BindingModel {
                property: bindings[j].property,
                expression: rewrite_expression(bindings[j].expression, from, to),
            },
    )
}

/// The element with every occurrence of `from` replaced by `to`, in its
/// bindings and in its geometry slots; the height slot is left as it is where
/// `keep_height` is set.
pub open spec fn rewrite_element(
    e: ElementModel,
    from: ReferenceModel,
    to: ReferenceModel,
    keep_height: bool,
) -> ElementModel {
    ElementModel {
        bindings: rewrite_bindings(e.bindings, from, to),
        geometry_props: rewrite_geometry(e.geometry_props, from, to, keep_height),
        ..e
    }
}

/// The document with every occurrence of `from` replaced by `to`, in every
/// binding and every geometry slot of every element, but for the height slot
/// of the element `keep`, if one is given.
pub open spec fn rewrite_document(
    doc: DocumentModel,
    from: ReferenceModel,
    to: ReferenceModel,
    keep: Option<int>,
) -> DocumentModel {
    DocumentModel {
        elements: Seq::new(
            doc.elements.len(),
            |i: int| rewrite_element(doc.elements[i], from, to, keep == Some(i)),
        ),
        components: doc.components,
    }
}

impl Element {
    /// Replaces every occurrence of `from` by `to` in the bindings and the
    /// geometry slots of this element, but for the height slot where
    /// `keep_height` is set.
    pub fn rewrite_references(&mut self, from: &NamedReference, to: &NamedReference, keep_height: bool)
        ensures
            final(self)@ == rewrite_element(old(self)@, from@, to@, keep_height),
    {
        let mut j: usize = 0;
        while j < self.bindings.len()
            invariant
                j <= self.bindings.len(),
                self.bindings.len() == old(self).bindings.len(),
                self.id == old(self).id,
                self.base_type == old(self).base_type,
                self.enclosing_component == old(self).enclosing_component,
                self.children == old(self).children,
                self.property_declarations == old(self).property_declarations,
                self.geometry_props == old(self).geometry_props,
                self.location == old(self).location,
                forall|k: int|
                    0 <= k < j ==> (#[trigger] self.bindings[k])@ == rewrite_bindings(
                        old(self)@.bindings,
                        from@,
                        to@,
                    )[k],
                forall|k: int|
                    j <= k < self.bindings.len() ==> #[trigger] self.bindings[k] == old(
                        self,
                    ).bindings[k],
            decreases self.bindings.len() - j,
        {
            let mut expression = Expression::Invalid;
            std::mem::swap(&mut self.bindings[j].expression, &mut expression);
            self.bindings[j].expression = expression.rewritten(from, to);
            j += 1;
        }
        match &mut self.geometry_props {
            Some(g) => {
                g.width.retarget(from, to);
                if !keep_height {
                    g.height.retarget(from, to);
                }
            },
            None => {},
        }
        assert(self@.bindings =~= rewrite_bindings(old(self)@.bindings, from@, to@));
    }
}

/// A compilation unit: the components in use and the table of their elements.
#[derive(Debug)]
pub struct Document {
    elements: Vec<Element>,
    components: Vec<Component>,
}

impl View for Document {
    type V = DocumentModel;

    closed spec fn view(&self) -> DocumentModel {
        DocumentModel {
            elements: self.elements@.map_values(|e: Element| e@),
            components: self.components@.map_values(|c: Component| c@),
        }
    }
}

/// An element without children, bindings or geometry slots.
pub open spec fn bare_element(
    id: Seq<char>,
    base_type: TypeModel,
    enclosing_component: int,
    location: Option<SourceLocation>,
) -> ElementModel {
    ElementModel {
        id,
        base_type,
        enclosing_component,
        children: Seq::empty(),
        bindings: Seq::empty(),
        property_declarations: Seq::empty(),
        geometry_props: None,
        location,
    }
}

/// The element `e` with the children `children`.
pub open spec fn with_children(e: ElementModel, children: Seq<int>) -> ElementModel {
    ElementModel { children, ..e }
}

/// The element `e` with the base type `base_type`.
pub open spec fn with_base_type(e: ElementModel, base_type: TypeModel) -> ElementModel {
    ElementModel { base_type, ..e }
}

/// The element `e` with one more binding, of `expression` to `property`.
pub open spec fn with_binding(
    e: ElementModel,
    property: Seq<char>,
    expression: ExpressionModel,
) -> ElementModel {
    ElementModel { bindings: e.bindings.push(BindingModel { property, expression }), ..e }
}

/// The element `e` with one more declared property, `name`.
pub open spec fn with_declaration(e: ElementModel, name: Seq<char>) -> ElementModel {
    ElementModel { property_declarations: e.property_declarations.push(name), ..e }
}

/// The element `e` with the geometry slots `width` and `height`.
pub open spec fn with_geometry(
    e: ElementModel,
    width: ReferenceModel,
    height: ReferenceModel,
) -> ElementModel {
    ElementModel { geometry_props: Some(GeometryModel { width, height }), ..e }
}

/// The document `doc` with `e` in the place of its element `index`.
pub open spec fn with_element(doc: DocumentModel, index: int, e: ElementModel) -> DocumentModel {
    DocumentModel { elements: doc.elements.update(index, e), components: doc.components }
}

/// The document `doc` with the new element `e` after its elements.
pub open spec fn with_new_element(doc: DocumentModel, e: ElementModel) -> DocumentModel {
    DocumentModel { elements: doc.elements.push(e), components: doc.components }
}

impl Document {
    /// A document without components.
    pub fn new() -> (doc: Self)
        ensures
            doc@.elements.len() == 0,
            doc@.components.len() == 0,
            doc@.well_formed(),
    {
        Document { elements: Vec::new(), components: Vec::new() }
    }

    /// The number of elements that were ever made in this document.
    pub fn element_count(&self) -> (n: usize)
        ensures
            n == self@.elements.len(),
    {
        self.elements.len()
    }

    /// The number of components.
    pub fn component_count(&self) -> (n: usize)
        ensures
            n == self@.components.len(),
    {
        self.components.len()
    }

    /// The element with identity `index`, if there is one.
    pub fn element(&self, index: usize) -> (found: Option<&Element>)
        ensures
            index < self@.elements.len() ==> found is Some && found->0@ == self@.elements[index as int],
            index >= self@.elements.len() ==> found is None,
    {
        if index < self.elements.len() {
            Some(&self.elements[index])
        } else {
            None
        }
    }

    /// The component at position `index`, if there is one.
    pub fn component(&self, index: usize) -> (found: Option<&Component>)
        ensures
            index < self@.components.len() ==> found is Some && found->0@
                == self@.components[index as int],
            index >= self@.components.len() ==> found is None,
    {
        if index < self.components.len() {
            Some(&self.components[index])
        } else {
            None
        }
    }

    /// Adds a component called `id` together with its root element, and
    /// returns the position of the component and the identity of the root.
    pub fn add_component(
        &mut self,
        id: &str,
        root_id: &str,
        root_type: ElementType,
        location: Option<SourceLocation>,
    ) -> (made: (usize, usize))
        requires
            old(self)@.well_formed(),
        ensures
            made.0 == old(self)@.components.len(),
            made.1 == old(self)@.elements.len(),
            final(self)@.elements == old(self)@.elements.push(
                bare_element(root_id@, root_type@, made.0 as int, location),
            ),
            final(self)@.components == old(self)@.components.push(
                ComponentModel { id: id@, root_element: made.1 as int },
            ),
            final(self)@.well_formed(),
    {
        let component = self.components.len();
        let root = self.elements.len();
        let element = Element {
            id: root_id.to_owned(),
            base_type: root_type,
            enclosing_component: component,
            children: Vec::new(),
            bindings: Vec::new(),
            property_declarations: Vec::new(),
            geometry_props: None,
            location,
        };
        proof {
            assert(element@.children =~= Seq::<int>::empty());
            assert(element@.bindings =~= Seq::<BindingModel>::empty());
            assert(element@.property_declarations =~= Seq::<Seq<char>>::empty());
        }
        let ghost added = element@;
        self.elements.push(element);
        self.components.push(Component { id: id.to_owned(), root_element: root });
        proof {
            assert(self@.elements =~= old(self)@.elements.push(added));
            assert(self@.components =~= old(self)@.components.push(
                ComponentModel { id: id@, root_element: root as int },
            ));
        }
        (component, root)
    }

    /// Makes a new element of the component `enclosing_component`, without
    /// children, bindings or geometry slots, and returns its identity. Where
    /// there is no such component, nothing is made.
    pub fn add_element(
        &mut self,
        id: String,
        base_type: ElementType,
        enclosing_component: usize,
        location: Option<SourceLocation>,
    ) -> (made: Option<usize>)
        requires
            old(self)@.well_formed(),
        ensures
            made is Some == (enclosing_component < old(self)@.components.len()),
            made is Some ==> made->0 == old(self)@.elements.len() && final(self)@
                == with_new_element(
                old(self)@,
                bare_element(id@, base_type@, enclosing_component as int, location),
            ),
            made is None ==> final(self)@ == old(self)@,
            final(self)@.well_formed(),
    {
        if enclosing_component >= self.components.len() {
            return None;
        }
        let index = self.elements.len();
        let element = Element {
            id,
            base_type,
            enclosing_component,
            children: Vec::new(),
            bindings: Vec::new(),
            property_declarations: Vec::new(),
            geometry_props: None,
            location,
        };
        proof {
            assert(element@.children =~= Seq::<int>::empty());
            assert(element@.bindings =~= Seq::<BindingModel>::empty());
            assert(element@.property_declarations =~= Seq::<Seq<char>>::empty());
        }
        let ghost added = element@;
        self.elements.push(element);
        proof {
            assert(self@.elements =~= old(self)@.elements.push(added));
            assert(self@.components =~= old(self)@.components);
        }
        Some(index)
    }

    /// Appends `child` to the children of `parent`. Where one of the two is
    /// no element of the document, nothing changes.
    pub fn append_child(&mut self, parent: usize, child: usize) -> (done: bool)
        requires
            old(self)@.well_formed(),
        ensures
            done == (parent < old(self)@.elements.len() && child < old(self)@.elements.len()),
            done ==> final(self)@ == with_element(
                old(self)@,
                parent as int,
                with_children(
                    old(self)@.elements[parent as int],
                    old(self)@.elements[parent as int].children.push(child as int),
                ),
            ),
            !done ==> final(self)@ == old(self)@,
            final(self)@.well_formed(),
    {
        if parent >= self.elements.len() || child >= self.elements.len() {
            return false;
        }
        self.elements[parent].children.push(child);
        proof {
            let was = old(self)@.elements[parent as int];
            assert(self.elements[parent as int]@.children =~= was.children.push(child as int));
            assert(self@.elements =~= old(self)@.elements.update(
                parent as int,
                with_children(was, was.children.push(child as int)),
            ));
            assert(self@.components =~= old(self)@.components);
            assert forall|i: int, j: int|
                0 <= i < self@.elements.len() && 0 <= j < self@.elements[i].children.len() implies 0
                <= #[trigger] self@.elements[i].children[j] < self@.elements.len() by {
                if i != parent || j < was.children.len() {
                    assert(self@.elements[i].children[j] == old(self)@.elements[i].children[j]);
                }
            }
        }
        true
    }

    /// Binds `expression` to the property `property` of the element
    /// `element`, after the bindings that the element has. Where there is no
    /// such element, nothing changes.
    pub fn add_binding(&mut self, element: usize, property: &str, expression: Expression) -> (done:
        bool)
        requires
            old(self)@.well_formed(),
        ensures
            done == (element < old(self)@.elements.len()),
            done ==> final(self)@ == with_element(
                old(self)@,
                element as int,
                with_binding(old(self)@.elements[element as int], property@, expression@),
            ),
            !done ==> final(self)@ == old(self)@,
            final(self)@.well_formed(),
    {
        if element >= self.elements.len() {
            return false;
        }
        self.elements[element].bindings.push(Binding { property: property.to_owned(), expression });
        proof {
            let was = old(self)@.elements[element as int];
            assert(self.elements[element as int]@.bindings =~= with_binding(
                was,
                property@,
                expression@,
            ).bindings);
            assert(self@.elements =~= old(self)@.elements.update(
                element as int,
                with_binding(was, property@, expression@),
            ));
            assert(self@.components =~= old(self)@.components);
        }
        true
    }

    /// Gives the element `element` the geometry slots `width` and `height`.
    /// Where there is no such element, nothing changes.
    pub fn set_geometry(&mut self, element: usize, width: NamedReference, height: NamedReference) -> (done:
        bool)
        requires
            old(self)@.well_formed(),
        ensures
            done == (element < old(self)@.elements.len()),
            done ==> final(self)@ == with_element(
                old(self)@,
                element as int,
                with_geometry(old(self)@.elements[element as int], width@, height@),
            ),
            !done ==> final(self)@ == old(self)@,
            final(self)@.well_formed(),
    {
        if element >= self.elements.len() {
            return false;
        }
        self.elements[element].geometry_props = Some(GeometryProps { width, height });
        proof {
            assert(self@.elements =~= old(self)@.elements.update(
                element as int,
                with_geometry(old(self)@.elements[element as int], width@, height@),
            ));
            assert(self@.components =~= old(self)@.components);
        }
        true
    }

    /// Declares the property `name` on the element `element`. Where there is
    /// no such element, nothing changes.
    pub fn declare_property(&mut self, element: usize, name: &str) -> (done: bool)
        requires
            old(self)@.well_formed(),
        ensures
            done == (element < old(self)@.elements.len()),
            done ==> final(self)@ == with_element(
                old(self)@,
                element as int,
                with_declaration(old(self)@.elements[element as int], name@),
            ),
            !done ==> final(self)@ == old(self)@,
            final(self)@.well_formed(),
    {
        if element >= self.elements.len() {
            return false;
        }
        self.elements[element].property_declarations.push(name.to_owned());
        proof {
            let was = old(self)@.elements[element as int];
            assert(self.elements[element as int]@.property_declarations =~= with_declaration(
                was,
                name@,
            ).property_declarations);
            assert(self@.elements =~= old(self)@.elements.update(
                element as int,
                with_declaration(was, name@),
            ));
            assert(self@.components =~= old(self)@.components);
        }
        true
    }

    /// The token for the property `property` of the element `element`. There
    /// is none where the document has no such element, or where the property
    /// is neither declared on the element nor one of the geometry slots.
    pub fn make_reference(&self, element: usize, property: &str) -> (token: Option<NamedReference>)
        ensures
            token is Some == (element < self@.elements.len() && (is_geometry_property(property@)
                || is_declared(self@.elements[element as int].property_declarations, property@))),
            token is Some ==> token->0@ == token_of(element as int, property@),
    {
        if element >= self.elements.len() {
            return None;
        }
        if str_equal(property, "x") || str_equal(property, "y") || str_equal(property, "width")
            || str_equal(property, "height") {
            return Some(NamedReference::new(element, property));
        }
        let declarations = &self.elements[element].property_declarations;
        let ghost model = self@.elements[element as int].property_declarations;
        let mut j: usize = 0;
        while j < declarations.len()
            invariant
                j <= declarations.len(),
                element < self@.elements.len(),
                model == self@.elements[element as int].property_declarations,
                model == names(declarations@),
                forall|k: int| 0 <= k < j ==> #[trigger] model[k] != property@,
            decreases declarations.len() - j,
        {
            if str_equal(declarations[j].as_str(), property) {
                assert(model[j as int] == property@);
                return Some(NamedReference::new(element, property));
            }
            j += 1;
        }
        None
    }

    /// Gives the element `index` the children `children`, in this order.
    pub fn set_children(&mut self, index: usize, children: Vec<usize>)
        requires
            old(self)@.well_formed(),
            index < old(self)@.elements.len(),
            forall|j: int| 0 <= j < children@.len() ==> children@[j] < old(self)@.elements.len(),
        ensures
            final(self)@ == with_element(
                old(self)@,
                index as int,
                with_children(old(self)@.elements[index as int], indices(children@)),
            ),
            final(self)@.well_formed(),
    {
        self.elements[index].children = children;
        proof {
            assert(self@.elements =~= old(self)@.elements.update(
                index as int,
                with_children(old(self)@.elements[index as int], indices(children@)),
            ));
            assert(self@.components =~= old(self)@.components);
        }
    }

    /// Gives the element `index` the base type `base_type`.
    pub fn set_base_type(&mut self, index: usize, base_type: ElementType)
        requires
            old(self)@.well_formed(),
            index < old(self)@.elements.len(),
        ensures
            final(self)@ == with_element(
                old(self)@,
                index as int,
                with_base_type(old(self)@.elements[index as int], base_type@),
            ),
            final(self)@.well_formed(),
    {
        self.elements[index].base_type = base_type;
        proof {
            assert(self@.elements =~= old(self)@.elements.update(
                index as int,
                with_base_type(old(self)@.elements[index as int], base_type@),
            ));
            assert(self@.components =~= old(self)@.components);
        }
    }

    /// Replaces every occurrence of `from` by `to`, in every binding and
    /// every geometry slot of every element of the document, but for the
    /// height slot of the element `keep`, if one is given.
    pub fn rewrite_all_keeping(
        &mut self,
        from: &NamedReference,
        to: &NamedReference,
        keep: Option<usize>,
    )
        requires
            old(self)@.well_formed(),
        ensures
            final(self)@ == rewrite_document(
                old(self)@,
                from@,
                to@,
                match keep {
                    Some(k) => Some(k as int),
                    None => None,
                },
            ),
            final(self)@.well_formed(),
    {
        let ghost kept: Option<int> = match keep {
            Some(k) => Some(k as int),
            None => None,
        };
        let mut i: usize = 0;
        while i < self.elements.len()
            invariant
                i <= self.elements.len(),
                self.elements.len() == old(self).elements.len(),
                self.components == old(self).components,
                kept == match keep {
                    Some(k) => Some(k as int),
                    None => None,
                },
                forall|k: int|
                    0 <= k < i ==> (#[trigger] self.elements[k])@ == rewrite_element(
                        old(self)@.elements[k],
                        from@,
                        to@,
                        kept == Some(k),
                    ),
                forall|k: int|
                    i <= k < self.elements.len() ==> #[trigger] self.elements[k] == old(
                        self,
                    ).elements[k],
            decreases self.elements.len() - i,
        {
            let keep_height = match keep {
                Some(k) => k == i,
                None => false,
            };
            self.elements[i].rewrite_references(from, to, keep_height);
            i += 1;
        }
        proof {
            assert(self@.elements =~= rewrite_document(old(self)@, from@, to@, kept).elements);
            assert(self@.components =~= old(self)@.components);
        }
    }

    /// Replaces every occurrence of `from` by `to` in the whole document.
    pub fn rewrite_all(&mut self, from: &NamedReference, to: &NamedReference)
        requires
            old(self)@.well_formed(),
        ensures
            final(self)@ == rewrite_document(old(self)@, from@, to@, None),
            final(self)@.well_formed(),
    {
        self.rewrite_all_keeping(from, to, None);
    }
}

} // verus!
