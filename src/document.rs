//! The manifest document: toml_edit's format-preserving tree, seen through
//! the dependency table's contents.
use vstd::prelude::*;

use crate::error::SanitizeError;

verus! {

#[verifier::external_type_specification]
#[verifier::external_body]
pub struct ExDocumentMut(toml_edit::DocumentMut);

#[verifier::external_type_specification]
#[verifier::external_body]
pub struct ExTomlError(toml_edit::TomlError);

#[verifier::external_type_specification]
#[verifier::external_body]
pub struct ExItem(toml_edit::Item);

/// The form in which a dependency is written.
#[derive(Debug, Copy, Clone, PartialEq, Eq, Structural)]
pub enum Shape {
    Text,
    Integer,
    Float,
    Boolean,
    Datetime,
    Array,
    /// `name = { version = "1", git = "..." }`
    Inline,
    /// `[dependencies.name]`
    Table,
    /// `[[dependencies.name]]`
    TableArray,
    /// A key that holds nothing.
    Empty,
}

/// One attribute of an inline-table entry.
pub struct AttrView {
    /// The attribute's name.
    pub key: Seq<char>,
    /// The value as the document writes it, without the spacing around it.
    pub text: Seq<char>,
    /// The value's content when it is a string.
    pub string: Option<Seq<char>>,
}

/// One entry of the dependency table.
pub struct DepView {
    /// The dependency's name.
    pub name: Seq<char>,
    /// The form in which the entry is written.
    pub kind: Shape,
    /// The value as the document writes it, without the spacing around it;
    /// empty for an entry that is no value.
    pub text: Seq<char>,
    /// The value's content when it is a string.
    pub string: Option<Seq<char>>,
    /// The attributes, in order, of an inline-table entry; empty otherwise.
    pub attrs: Seq<AttrView>,
}

/// Whether the text is a well-formed document.
pub uninterp spec fn is_document(s: Seq<char>) -> bool;

/// The document written out.
pub uninterp spec fn document_text(d: toml_edit::DocumentMut) -> Seq<char>;

/// The document written out with its top-level entry `key` taken away.
pub uninterp spec fn rest_of(d: toml_edit::DocumentMut, key: Seq<char>) -> Seq<char>;

/// Whether the text, read as a document, has a table-like top-level entry `key`.
pub uninterp spec fn table_in(s: Seq<char>, key: Seq<char>) -> bool;

/// The entries of the top-level table `key` of the text read as a document.
pub uninterp spec fn entries_in(s: Seq<char>, key: Seq<char>) -> Seq<DepView>;

/// Whether the document has a table-like top-level entry `key`.
pub uninterp spec fn has_table(d: toml_edit::DocumentMut, key: Seq<char>) -> bool;

/// The non-empty entries of the top-level table `key`, in order.
pub uninterp spec fn entries_of(d: toml_edit::DocumentMut, key: Seq<char>) -> Seq<DepView>;

/// The key of the table that lists a manifest's dependencies.
pub open spec fn dependencies_key() -> Seq<char> {
    seq!['d', 'e', 'p', 'e', 'n', 'd', 'e', 'n', 'c', 'i', 'e', 's']
}

/// Whether the document has a table-like `dependencies` entry.
pub open spec fn has_dependency_table(d: toml_edit::DocumentMut) -> bool {
    has_table(d, dependencies_key())
}

/// The entries of the `dependencies` table, in order.
pub open spec fn dependencies_of(d: toml_edit::DocumentMut) -> Seq<DepView> {
    entries_of(d, dependencies_key())
}

/// The key of the table that lists a manifest's dependencies.
pub fn dependencies_table() -> (r: &'static str)
    ensures
        r@ == dependencies_key(),
{
    proof {
        reveal_strlit("dependencies");
    }
    let r = "dependencies";
    assert(r@ =~= dependencies_key());
    r
}

/// Whether some attribute is named `key`.
pub open spec fn has_key(attrs: Seq<AttrView>, key: Seq<char>) -> bool {
    exists|j: int| 0 <= j < attrs.len() && (#[trigger] attrs[j]).key == key
}

/// The attributes without those named `key`, the others kept in order.
pub open spec fn without_key(attrs: Seq<AttrView>, key: Seq<char>) -> Seq<AttrView>
    decreases attrs.len(),
{
    if attrs.len() == 0 {
        attrs
    } else {
        let rest = without_key(attrs.drop_last(), key);
        if attrs.last().key == key {
            rest
        } else {
            rest.push(attrs.last())
        }
    }
}

/// The first attribute named `key`.
pub open spec fn lookup(attrs: Seq<AttrView>, key: Seq<char>) -> Option<AttrView>
    decreases attrs.len(),
{
    if attrs.len() == 0 {
        None
    } else if attrs[0].key == key {
        Some(attrs[0])
    } else {
        lookup(attrs.drop_first(), key)
    }
}

/// What the walker reads of one entry.
pub struct DependencyInfo {
    pub name: String,
    pub kind: Shape,
    pub text: String,
    pub string: Option<String>,
}

/// The characters of an optional string.
pub open spec fn opt_view(o: Option<String>) -> Option<Seq<char>> {
    match o {
        Some(s) => Some(s@),
        None => None,
    }
}

impl DependencyInfo {
    pub open spec fn matches_view(&self, v: DepView) -> bool {
        self.name@ == v.name && self.kind == v.kind && self.text@ == v.text && opt_view(self.string)
            == v.string
    }
}

/// Reads a manifest; malformed text fails with `ParseError`.
pub fn parse_manifest(text: &str) -> (r: Result<toml_edit::DocumentMut, SanitizeError>)
    ensures
        r is Ok <==> is_document(text@),
        r matches Err(e) ==> e == SanitizeError::ParseError,
        r matches Ok(d) ==> has_dependency_table(d) == table_in(text@, dependencies_key())
            && dependencies_of(d) == entries_in(text@, dependencies_key()),
{
    match parse_document(text) {
        Ok(d) => Ok(d),
        Err(_) => Err(SanitizeError::ParseError),
    }
}

/// Writes the manifest out.
pub fn manifest_text(doc: &toml_edit::DocumentMut) -> (r: String)
    ensures
        r@ == document_text(*doc),
{
    render(doc)
}

/// Relies on `DocumentMut`'s `FromStr` (toml_edit's parser): it accepts
/// exactly the well-formed documents, and what it reads depends on the text
/// alone.
#[verifier::external_body]
fn parse_document(text: &str) -> (r: Result<toml_edit::DocumentMut, toml_edit::TomlError>)
    ensures
        r.is_ok() == is_document(text@),
        r matches Ok(d) ==> forall|k: Seq<char>|
            #![trigger has_table(d, k)]
            #![trigger entries_of(d, k)]
            has_table(d, k) == table_in(text@, k) && entries_of(d, k) == entries_in(text@, k),
{
    text.parse::<toml_edit::DocumentMut>()
}

/// Relies on `DocumentMut`'s `Display`: the document written out.
#[verifier::external_body]
fn render(doc: &toml_edit::DocumentMut) -> (r: String)
    ensures
        r@ == document_text(*doc),
{
    doc.to_string()
}

/// Tells toml_edit's `Item` and `Value` variants apart.
#[verifier::external_body]
fn shape_of(item: &toml_edit::Item) -> Shape {
    match item {
        toml_edit::Item::Value(toml_edit::Value::String(_)) => Shape::Text,
        toml_edit::Item::Value(toml_edit::Value::Integer(_)) => Shape::Integer,
        toml_edit::Item::Value(toml_edit::Value::Float(_)) => Shape::Float,
        toml_edit::Item::Value(toml_edit::Value::Boolean(_)) => Shape::Boolean,
        toml_edit::Item::Value(toml_edit::Value::Datetime(_)) => Shape::Datetime,
        toml_edit::Item::Value(toml_edit::Value::Array(_)) => Shape::Array,
        toml_edit::Item::Value(toml_edit::Value::InlineTable(_)) => Shape::Inline,
        toml_edit::Item::Table(_) => Shape::Table,
        toml_edit::Item::ArrayOfTables(_) => Shape::TableArray,
        toml_edit::Item::None => Shape::Empty,
    }
}

/// Relies on `Table::get`, `Item::as_table_like` and `TableLike::iter`: the
/// non-empty entries of the top-level table `table` in order, each with its variant, the value's
/// `Display` with its spacing cleared (`Value::decorated`) and its
/// `Item::as_str` content.
#[verifier::external_body]
pub(crate) fn read_table(doc: &toml_edit::DocumentMut, table: &str) -> (r: Option<Vec<DependencyInfo>>)
    ensures
        r.is_some() == has_table(*doc, table@),
        r matches Some(v) ==> v.len() == entries_of(*doc, table@).len() && forall|j: int|
            0 <= j < v.len() ==> (#[trigger] v[j]).matches_view(entries_of(*doc, table@)[j]),
{
    let entries = doc.get(table)?.as_table_like()?;
    let mut out = Vec::new();
    for (name, item) in entries.iter() {
        out.push(DependencyInfo {
            name: name.to_string(),
            kind: shape_of(item),
            text: item.as_value().map_or(String::new(), |v| v.clone().decorated("", "").to_string()),
            string: item.as_str().map(String::from),
        });
    }
    Some(out)
}

/// Relies on `Item::as_inline_table`, `InlineTable::get`, `Value::as_str` and
/// `Value::decorated`: for an inline-table entry, the attribute named `key`,
/// with its string content and its text without spacing.
#[verifier::external_body]
pub(crate) fn read_attribute(doc: &toml_edit::DocumentMut, table: &str, i: usize, key: &str) -> (r: Option<
    (Option<String>, String),
>)
    requires
        has_table(*doc, table@),
        i < entries_of(*doc, table@).len(),
    ensures
        entries_of(*doc, table@)[i as int].kind == Shape::Inline ==> match lookup(
            entries_of(*doc, table@)[i as int].attrs,
            key@,
        ) {
            None => r is None,
            Some(a) => r matches Some(p) && opt_view(p.0) == a.string && p.1@ == a.text,
        },
{
    let item = doc.get(table)?.as_table_like()?.iter().nth(i)?.1;
    let value = item.as_inline_table()?.get(key)?;
    Some((value.as_str().map(String::from), value.clone().decorated("", "").to_string()))
}

/// Relies on `Table::get_mut`, `TableLike::iter_mut` and `InlineTable::remove`
/// (an order-keeping removal): drops the attribute named `key` from an
/// inline-table entry and says whether there was one. Other entries, and
/// entries of other kinds, are left as they are.
#[verifier::external_body]
pub(crate) fn remove_attribute(doc: &mut toml_edit::DocumentMut, table: &str, i: usize, key: &str) -> (r: bool)
    requires
        has_table(*old(doc), table@),
        i < entries_of(*old(doc), table@).len(),
    ensures
        has_table(*final(doc), table@),
        entries_of(*final(doc), table@).len() == entries_of(*old(doc), table@).len(),
        forall|j: int|
            0 <= j < entries_of(*old(doc), table@).len() && j != i ==> #[trigger] entries_of(
                *final(doc),
                table@,
            )[j] == entries_of(*old(doc), table@)[j],
        entries_of(*final(doc), table@)[i as int].name == entries_of(*old(doc), table@)[i as int].name,
        entries_of(*final(doc), table@)[i as int].kind == entries_of(*old(doc), table@)[i as int].kind,
        entries_of(*final(doc), table@)[i as int].attrs == without_key(
            entries_of(*old(doc), table@)[i as int].attrs,
            key@,
        ),
        r == (entries_of(*old(doc), table@)[i as int].kind == Shape::Inline && has_key(
            entries_of(*old(doc), table@)[i as int].attrs,
            key@,
        )),
        !r ==> entries_of(*final(doc), table@) == entries_of(*old(doc), table@) && document_text(
            *final(doc),
        ) == document_text(*old(doc)),
        rest_of(*final(doc), table@) == rest_of(*old(doc), table@),
{
    match doc.get_mut(table).and_then(toml_edit::Item::as_table_like_mut) {
        Some(entries) => match entries.iter_mut().nth(i) {
            Some((_, toml_edit::Item::Value(toml_edit::Value::InlineTable(t)))) => t.remove(
                key,
            ).is_some(),
            _ => false,
        },
        None => false,
    }
}

/// Relies on `InlineTable::fmt`, which only resets the spacing around the
/// keys and values of an inline-table entry: names, forms and attributes stay.
#[verifier::external_body]
pub(crate) fn tidy_entry(doc: &mut toml_edit::DocumentMut, table: &str, i: usize)
    requires
        has_table(*old(doc), table@),
        i < entries_of(*old(doc), table@).len(),
    ensures
        has_table(*final(doc), table@),
        entries_of(*final(doc), table@).len() == entries_of(*old(doc), table@).len(),
        forall|j: int|
            0 <= j < entries_of(*old(doc), table@).len() && j != i ==> #[trigger] entries_of(
                *final(doc),
                table@,
            )[j] == entries_of(*old(doc), table@)[j],
        entries_of(*final(doc), table@)[i as int].name == entries_of(*old(doc), table@)[i as int].name,
        entries_of(*final(doc), table@)[i as int].kind == entries_of(*old(doc), table@)[i as int].kind,
        entries_of(*final(doc), table@)[i as int].attrs == entries_of(*old(doc), table@)[i as int].attrs,
        rest_of(*final(doc), table@) == rest_of(*old(doc), table@),
{
    if let Some(entries) = doc.get_mut(table).and_then(toml_edit::Item::as_table_like_mut) {
        if let Some((_, toml_edit::Item::Value(toml_edit::Value::InlineTable(t)))) = entries.iter_mut().nth(i) {
            t.fmt();
        }
    }
}

} // verus!
