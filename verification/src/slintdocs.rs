//! The entries of the reference pages for builtin enumerations and structures.

use vstd::prelude::*;
use vstd::string::StringExecFns;
use crate::langtype::str_equal;
use crate::util::{kebab_case, to_kebab_case};

verus! {

/// A list of texts as plain values.
pub open spec fn texts(list: Seq<String>) -> Seq<Seq<char>> {
    list.map_values(|s: String| s@)
}

/// One value of an enumeration, or one field of a structure, with its
/// documentation. `ty` is the field's type; a value has none.
#[derive(Debug)]
pub struct MemberDoc {
    pub name: String,
    pub ty: String,
    pub docs: Vec<String>,
}

/// A documented member as plain values.
pub ghost struct MemberModel {
    pub name: Seq<char>,
    pub ty: Seq<char>,
    pub docs: Seq<Seq<char>>,
}

impl View for MemberDoc {
    type V = MemberModel;

    open spec fn view(&self) -> MemberModel {
        MemberModel { name: self.name@, ty: self.ty@, docs: texts(self.docs@) }
    }
}

/// A list of documented members as plain values.
pub open spec fn members(list: Seq<MemberDoc>) -> Seq<MemberModel> {
    list.map_values(|m: MemberDoc| m@)
}

/// The name under which the reference shows a field's type.
pub open spec fn shown_type(ty: Seq<char>) -> Seq<char> {
    if ty == "i32"@ {
        "int"@
    } else if ty == "f32"@ {
        "float"@
    } else if ty == "SharedString"@ {
        "string"@
    } else if ty == "Coord"@ {
        "length"@
    } else {
        ty
    }
}

/// The documentation lines, each followed by a line break.
pub open spec fn doc_lines(docs: Seq<Seq<char>>) -> Seq<char>
    decreases docs.len(),
{
    if docs.len() == 0 {
        Seq::empty()
    } else {
        doc_lines(docs.drop_last()) + docs.last() + "\n"@
    }
}

/// The documentation lines of a value, each after the first on a line of
/// its own that is indented under the value.
pub open spec fn indented_docs(docs: Seq<Seq<char>>) -> Seq<char>
    decreases docs.len(),
{
    if docs.len() == 0 {
        Seq::empty()
    } else if docs.len() == 1 {
        docs[0]
    } else {
        indented_docs(docs.drop_last()) + "\n   "@ + docs.last()
    }
}

/// The documentation lines put one after the other.
pub open spec fn joined_docs(docs: Seq<Seq<char>>) -> Seq<char>
    decreases docs.len(),
{
    if docs.len() == 0 {
        Seq::empty()
    } else {
        joined_docs(docs.drop_last()) + docs.last()
    }
}

/// The list item for one value of an enumeration.
pub open spec fn value_item(value: MemberModel) -> Seq<char> {
    "* **`"@ + kebab_case(value.name) + "`**:"@ + indented_docs(value.docs) + "\n"@
}

/// The list items for the values of an enumeration.
pub open spec fn value_items(values: Seq<MemberModel>) -> Seq<char>
    decreases values.len(),
{
    if values.len() == 0 {
        Seq::empty()
    } else {
        value_items(values.drop_last()) + value_item(values.last())
    }
}

/// The list item for one field of a structure.
pub open spec fn field_item(field: MemberModel) -> Seq<char> {
    "- **`"@ + kebab_case(field.name) + "`** (_"@ + shown_type(field.ty) + "_):"@ + joined_docs(
        field.docs,
    ) + "\n"@
}

/// The list items for the fields of a structure.
pub open spec fn field_items(fields: Seq<MemberModel>) -> Seq<char>
    decreases fields.len(),
{
    if fields.len() == 0 {
        Seq::empty()
    } else {
        field_items(fields.drop_last()) + field_item(fields.last())
    }
}

/// The entry for an enumeration: a heading with its name, its
/// documentation, and one list item for each value.
pub open spec fn enum_entry(
    name: Seq<char>,
    docs: Seq<Seq<char>>,
    values: Seq<MemberModel>,
) -> Seq<char> {
    "## `"@ + name + "`\n\n"@ + doc_lines(docs) + "\n"@ + value_items(values) + "\n"@
}

/// The entry for a structure: a heading with its name, its documentation,
/// and one list item for each field.
pub open spec fn struct_entry(
    name: Seq<char>,
    docs: Seq<Seq<char>>,
    fields: Seq<MemberModel>,
) -> Seq<char> {
    "## `"@ + name + "`\n\n"@ + doc_lines(docs) + "\n### Fields\n\n"@ + field_items(fields) + "\n"@
}

/// The name under which the reference shows a field's type.
pub fn map_type(ty: &str) -> (shown: String)
    ensures
        shown@ == shown_type(ty@),
{
    if str_equal(ty, "i32") {
        "int".to_owned()
    } else if str_equal(ty, "f32") {
        "float".to_owned()
    } else if str_equal(ty, "SharedString") {
        "string".to_owned()
    } else if str_equal(ty, "Coord") {
        "length".to_owned()
    } else {
        ty.to_owned()
    }
}

/// Appends the documentation lines, each followed by a line break.
fn append_doc_lines(entry: &mut String, docs: &Vec<String>)
    ensures
        final(entry)@ == old(entry)@ + doc_lines(texts(docs@)),
{
    let ghost all = texts(docs@);
    let mut i: usize = 0;
    assert(all.take(0) =~= Seq::<Seq<char>>::empty());
    assert(entry@ + Seq::<char>::empty() =~= entry@);
    while i < docs.len()
        invariant
            i <= docs.len(),
            all == texts(docs@),
            entry@ == old(entry)@ + doc_lines(all.take(i as int)),
        decreases docs.len() - i,
    {
        proof {
            assert(all.take(i + 1).drop_last() =~= all.take(i as int));
            assert(all.take(i + 1).last() == docs@[i as int]@);
            assert(old(entry)@ + doc_lines(all.take(i + 1)) =~= entry@ + docs@[i as int]@ + "\n"@);
        }
        entry.append(docs[i].as_str());
        entry.append("\n");
        i += 1;
    }
    assert(all.take(i as int) =~= all);
}

/// Appends the documentation lines of a value, or of a field when
/// `indented` is not set.
fn append_member_docs(entry: &mut String, docs: &Vec<String>, indented: bool)
    ensures
        final(entry)@ == old(entry)@ + if indented {
            indented_docs(texts(docs@))
        } else {
            joined_docs(texts(docs@))
        },
{
    let ghost all = texts(docs@);
    let mut i: usize = 0;
    assert(all.take(0) =~= Seq::<Seq<char>>::empty());
    assert(entry@ + Seq::<char>::empty() =~= entry@);
    while i < docs.len()
        invariant
            i <= docs.len(),
            all == texts(docs@),
            entry@ == old(entry)@ + if indented {
                indented_docs(all.take(i as int))
            } else {
                joined_docs(all.take(i as int))
            },
        decreases docs.len() - i,
    {
        let ghost sofar = entry@;
        proof {
            assert(all.take(i + 1).drop_last() =~= all.take(i as int));
            assert(all.take(i + 1).last() == docs@[i as int]@);
            if i == 0 {
                assert(all.take(1)[0] == docs@[0]@);
                assert(sofar + docs@[0]@ =~= old(entry)@ + docs@[0]@);
            }
        }
        if indented && i > 0 {
            entry.append("\n   ");
        }
        entry.append(docs[i].as_str());
        proof {
            if indented {
                assert(entry@ =~= old(entry)@ + indented_docs(all.take(i + 1)));
            } else {
                assert(entry@ =~= old(entry)@ + joined_docs(all.take(i + 1)));
            }
        }
        i += 1;
    }
    assert(all.take(i as int) =~= all);
}

/// The entry of the reference page for the enumeration `name`.
pub fn enum_doc_entry(name: &str, docs: &Vec<String>, values: &Vec<MemberDoc>) -> (entry: String)
    ensures
        entry@ == enum_entry(name@, texts(docs@), members(values@)),
{
    let mut entry = "## `".to_owned();
    entry.append(name);
    entry.append("`\n\n");
    append_doc_lines(&mut entry, docs);
    entry.append("\n");
    let ghost head = entry@;
    let ghost all = members(values@);
    let mut i: usize = 0;
    assert(all.take(0) =~= Seq::<MemberModel>::empty());
    assert(entry@ + Seq::<char>::empty() =~= entry@);
    while i < values.len()
        invariant
            i <= values.len(),
            all == members(values@),
            entry@ == head + value_items(all.take(i as int)),
        decreases values.len() - i,
    {
        let ghost sofar = entry@;
        proof {
            assert(all.take(i + 1).drop_last() =~= all.take(i as int));
            assert(all.take(i + 1).last() == values@[i as int]@);
        }
        entry.append("* **`");
        entry.append(to_kebab_case(values[i].name.as_str()).as_str());
        entry.append("`**:");
        append_member_docs(&mut entry, &values[i].docs, true);
        entry.append("\n");
        assert(entry@ =~= sofar + value_item(values@[i as int]@));
        assert(entry@ =~= head + value_items(all.take(i + 1)));
        i += 1;
    }
    assert(all.take(i as int) =~= all);
    entry.append("\n");
    assert(entry@ =~= enum_entry(name@, texts(docs@), members(values@)));
    entry
}

/// The entry of the reference page for the structure `name`.
pub fn struct_doc_entry(name: &str, docs: &Vec<String>, fields: &Vec<MemberDoc>) -> (entry: String)
    ensures
        entry@ == struct_entry(name@, texts(docs@), members(fields@)),
{
    let mut entry = "## `".to_owned();
    entry.append(name);
    entry.append("`\n\n");
    append_doc_lines(&mut entry, docs);
    entry.append("\n### Fields\n\n");
    let ghost head = entry@;
    let ghost all = members(fields@);
    let mut i: usize = 0;
    assert(all.take(0) =~= Seq::<MemberModel>::empty());
    assert(entry@ + Seq::<char>::empty() =~= entry@);
    while i < fields.len()
        invariant
            i <= fields.len(),
            all == members(fields@),
            entry@ == head + field_items(all.take(i as int)),
        decreases fields.len() - i,
    {
        let ghost sofar = entry@;
        proof {
            assert(all.take(i + 1).drop_last() =~= all.take(i as int));
            assert(all.take(i + 1).last() == fields@[i as int]@);
        }
        entry.append("- **`");
        entry.append(to_kebab_case(fields[i].name.as_str()).as_str());
        entry.append("`** (_");
        entry.append(map_type(fields[i].ty.as_str()).as_str());
        entry.append("_):");
        append_member_docs(&mut entry, &fields[i].docs, false);
        entry.append("\n");
        assert(entry@ =~= sofar + field_item(fields@[i as int]@));
        assert(entry@ =~= head + field_items(all.take(i + 1)));
        i += 1;
    }
    assert(all.take(i as int) =~= all);
    entry.append("\n");
    assert(entry@ =~= struct_entry(name@, texts(docs@), members(fields@)));
    entry
}

} // verus!
