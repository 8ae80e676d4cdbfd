//! Element types and the registry that resolves type names.

use vstd::prelude::*;

verus! {

/// Compares two string slices, through `str`'s `==` of the standard library:
/// they are equal exactly when they hold the same characters.
#[verifier::external_body]
pub(crate) fn str_equal(a: &str, b: &str) -> (same: bool)
    ensures
        same == (a@ == b@),
{
    a == b
}

/// The base type of an element.
#[derive(Debug)]
pub enum ElementType {
    /// No type: what an element has before it is given one.
    Error,
    /// A builtin primitive, by its name.
    Builtin(String),
    /// A component of the document, by its position in the document.
    Component(usize),
}

/// An element type as plain values.
pub ghost enum TypeModel {
    Error,
    Builtin(Seq<char>),
    Component(int),
}

impl View for ElementType {
    type V = TypeModel;

    open spec fn view(&self) -> TypeModel {
        match self {
            ElementType::Error => TypeModel::Error,
            ElementType::Builtin(name) => TypeModel::Builtin(name@),
            ElementType::Component(index) => TypeModel::Component(*index as int),
        }
    }
}

impl Clone for ElementType {
    fn clone(&self) -> (copy: Self)
        ensures
            copy@ == self@,
    {
        match self {
            ElementType::Error => ElementType::Error,
            ElementType::Builtin(name) => ElementType::Builtin(name.clone()),
            ElementType::Component(index) => ElementType::Component(*index),
        }
    }
}

impl Default for ElementType {
    fn default() -> (ty: Self)
        ensures
            ty@ == TypeModel::Error,
    {
        ElementType::Error
    }
}

impl ElementType {
    /// Whether this is the builtin primitive called `name`.
    pub fn is_builtin_named(&self, name: &str) -> (yes: bool)
        ensures
            yes == (self@ == TypeModel::Builtin(name@)),
    {
        match self {
            ElementType::Builtin(own) => str_equal(own.as_str(), name),
            _ => false,
        }
    }
}

/// One entry of a registry: a type name and the type it stands for.
#[derive(Debug)]
pub struct RegisteredType {
    pub name: String,
    pub ty: ElementType,
}

/// The type that `name` resolves to among `entries`: that of the first entry
/// with this name.
pub open spec fn lookup_type(entries: Seq<(Seq<char>, TypeModel)>, name: Seq<char>) -> Option<
    TypeModel,
>
    decreases entries.len(),
{
    if entries.len() == 0 {
        None
    } else if entries[0].0 == name {
        Some(entries[0].1)
    } else {
        lookup_type(entries.drop_first(), name)
    }
}

/// The registry of builtin element types, populated before the passes run
/// and only ever added to.
#[derive(Debug)]
pub struct TypeRegistry {
    elements: Vec<RegisteredType>,
    empty: ElementType,
}

/// A registry as plain values.
pub ghost struct RegistryModel {
    /// The registered names with their types, in the order of registration.
    pub elements: Seq<(Seq<char>, TypeModel)>,
    /// The type of an element that does nothing.
    pub empty: TypeModel,
}

impl View for TypeRegistry {
    type V = RegistryModel;

    closed spec fn view(&self) -> RegistryModel {
        RegistryModel {
            elements: self.elements@.map_values(|e: RegisteredType| (e.name@, e.ty@)),
            empty: self.empty@,
        }
    }
}

impl TypeRegistry {
    /// A registry without builtin elements, whose no-op element type is `empty`.
    pub fn new(empty: ElementType) -> (registry: Self)
        ensures
            registry@.elements == Seq::<(Seq<char>, TypeModel)>::empty(),
            registry@.empty == empty@,
    {
        let registry = TypeRegistry { elements: Vec::new(), empty };
        assert(registry@.elements =~= Seq::<(Seq<char>, TypeModel)>::empty());
        registry
    }

    /// Registers `ty` under `name`. A name that is registered already keeps
    /// its type: the first registration is the canonical one.
    pub fn insert_builtin_element(&mut self, name: String, ty: ElementType)
        ensures
            final(self)@.elements == old(self)@.elements.push((name@, ty@)),
            final(self)@.empty == old(self)@.empty,
    {
        let ghost entry = (name@, ty@);
        self.elements.push(RegisteredType { name, ty });
        assert(self@.elements =~= old(self)@.elements.push(entry));
    }

    /// The builtin element type called `name`, if there is one. Absence is
    /// an answer, not a failure: nothing is reported.
    pub fn lookup_builtin_element(&self, name: &str) -> (found: Option<ElementType>)
        ensures
            found is Some == lookup_type(self@.elements, name@) is Some,
            found is Some ==> found->0@ == lookup_type(self@.elements, name@)->0,
    {
        let mut i: usize = 0;
        assert(self@.elements.skip(0) =~= self@.elements);
        while i < self.elements.len()
            invariant
                i <= self.elements.len(),
                self@.elements.len() == self.elements.len(),
                lookup_type(self@.elements, name@) == lookup_type(
                    self@.elements.skip(i as int),
                    name@,
                ),
            decreases self.elements.len() - i,
        {
            assert(self@.elements.skip(i as int).drop_first() =~= self@.elements.skip(i + 1));
            assert(self@.elements.skip(i as int)[0] == self@.elements[i as int]);
            if str_equal(self.elements[i].name.as_str(), name) {
                return Some(self.elements[i].ty.clone());
            }
            i += 1;
        }
        None
    }

    /// The type of an element that does nothing.
    pub fn empty_type(&self) -> (ty: ElementType)
        ensures
            ty@ == self@.empty,
    {
        self.empty.clone()
    }
}

} // verus!
