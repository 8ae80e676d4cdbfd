//! The type loader: the registry of builtin types together with the cache of
//! components that were imported from other documents.
//!
//! Resolving an import may require another document to be read and compiled,
//! which happens outside this library. What this module keeps is the result:
//! once a component is recorded for a locator and symbol, every later lookup
//! of that pair is served from the cache with that one canonical type.

use vstd::prelude::*;
use crate::langtype::{str_equal, ElementType, RegistryModel, TypeModel, TypeRegistry};

verus! {

/// One imported component: where it was imported from, under which name,
/// and the type it resolved to.
#[derive(Debug)]
pub struct ImportedType {
    pub locator: String,
    pub symbol: String,
    pub ty: ElementType,
}

/// An imported component as plain values.
pub ghost struct ImportModel {
    pub locator: Seq<char>,
    pub symbol: Seq<char>,
    pub ty: TypeModel,
}

impl View for ImportedType {
    type V = ImportModel;

    open spec fn view(&self) -> ImportModel {
        ImportModel { locator: self.locator@, symbol: self.symbol@, ty: self.ty@ }
    }
}

/// The type cached in `imports` for `symbol` of `locator`: that of the first
/// entry for this pair.
pub open spec fn lookup_import(
    imports: Seq<ImportModel>,
    locator: Seq<char>,
    symbol: Seq<char>,
) -> Option<TypeModel>
    decreases imports.len(),
{
    if imports.len() == 0 {
        None
    } else if imports[0].locator == locator && imports[0].symbol == symbol {
        Some(imports[0].ty)
    } else {
        lookup_import(imports.drop_first(), locator, symbol)
    }
}

/// Resolves type names for the passes.
#[derive(Debug)]
pub struct TypeLoader {
    registry: TypeRegistry,
    imports: Vec<ImportedType>,
}

impl TypeLoader {
    /// The cached imports, in the order in which they were recorded.
    pub closed spec fn imports(&self) -> Seq<ImportModel> {
        self.imports@.map_values(|e: ImportedType| e@)
    }

    /// The builtin types that the loader resolves names against.
    pub closed spec fn builtins(&self) -> RegistryModel {
        self.registry@
    }

    /// The registry of builtin types.
    pub fn global_type_registry(&self) -> (registry: &TypeRegistry)
        ensures
            registry@ == self.builtins(),
    {
        &self.registry
    }

    /// A loader over `registry` that has imported nothing yet.
    pub fn new(registry: TypeRegistry) -> (loader: Self)
        ensures
            loader.builtins() == registry@,
            loader.imports() == Seq::<ImportModel>::empty(),
    {
        let loader = TypeLoader { registry, imports: Vec::new() };
        assert(loader.imports() =~= Seq::<ImportModel>::empty());
        loader
    }

    /// The type that was recorded for `symbol` of `locator`, if any. Absence
    /// is an answer to branch on: nothing is reported.
    pub fn cached_import(&self, locator: &str, symbol: &str) -> (found: Option<ElementType>)
        ensures
            found is Some == lookup_import(self.imports(), locator@, symbol@) is Some,
            found is Some ==> found->0@ == lookup_import(self.imports(), locator@, symbol@)->0,
    {
        let mut i: usize = 0;
        assert(self.imports().skip(0) =~= self.imports());
        while i < self.imports.len()
            invariant
                i <= self.imports.len(),
                self.imports().len() == self.imports.len(),
                lookup_import(self.imports(), locator@, symbol@) == lookup_import(
                    self.imports().skip(i as int),
                    locator@,
                    symbol@,
                ),
            decreases self.imports.len() - i,
        {
            assert(self.imports().skip(i as int).drop_first() =~= self.imports().skip(i + 1));
            assert(self.imports().skip(i as int)[0] == self.imports@[i as int]@);
            if str_equal(self.imports[i].locator.as_str(), locator) && str_equal(
                self.imports[i].symbol.as_str(),
                symbol,
            ) {
                return Some(self.imports[i].ty.clone());
            }
            i += 1;
        }
        None
    }

    /// Records that `symbol` of `locator` resolved to `ty`, and returns the
    /// canonical type of that pair. Where the pair is cached already, the
    /// cache stays as it is and the cached type is returned: overlapping
    /// resolutions of one symbol end in one definition.
    pub fn record_import(&mut self, locator: String, symbol: String, ty: ElementType) -> (canonical:
        ElementType)
        ensures
            final(self).builtins() == old(self).builtins(),
            lookup_import(final(self).imports(), locator@, symbol@) == Some(canonical@),
            match lookup_import(old(self).imports(), locator@, symbol@) {
                Some(cached) => {
                    &&& final(self).imports() == old(self).imports()
                    &&& canonical@ == cached
                },
                None => {
                    &&& final(self).imports() == old(self).imports().push(
                        ImportModel { locator: locator@, symbol: symbol@, ty: ty@ },
                    )
                    &&& canonical@ == ty@
                },
            },
    {
        match self.cached_import(locator.as_str(), symbol.as_str()) {
            Some(cached) => cached,
            None => {
                let canonical = ty.clone();
                let ghost entry = ImportModel { locator: locator@, symbol: symbol@, ty: ty@ };
                self.imports.push(ImportedType { locator, symbol, ty });
                proof {
                    assert(self.imports() =~= old(self).imports().push(entry));
                    lemma_lookup_import_push(old(self).imports(), entry, entry.locator, entry.symbol);
                }
                canonical
            },
        }
    }
}

/// Recording an import never changes what an earlier import resolves to: a
/// lookup in a cache with one more entry gives what the cache gave before,
/// and gives the new entry's type only where nothing was cached for that
/// locator and symbol.
pub proof fn lemma_lookup_import_push(
    imports: Seq<ImportModel>,
    entry: ImportModel,
    locator: Seq<char>,
    symbol: Seq<char>,
)
    ensures
        lookup_import(imports.push(entry), locator, symbol) == match lookup_import(
            imports,
            locator,
            symbol,
        ) {
            Some(cached) => Some(cached),
            None => if entry.locator == locator && entry.symbol == symbol {
                Some(entry.ty)
            } else {
                None
            },
        },
    decreases imports.len(),
{
    if imports.len() == 0 {
        assert(imports.push(entry).drop_first() =~= imports);
    } else {
        assert(imports.push(entry).drop_first() =~= imports.drop_first().push(entry));
        if !(imports[0].locator == locator && imports[0].symbol == symbol) {
            lemma_lookup_import_push(imports.drop_first(), entry, locator, symbol);
        }
    }
}

} // verus!
