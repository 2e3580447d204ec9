//! The version requirement that a dependency entry declares.
use vstd::prelude::*;

use crate::document::{
    dependencies_of, dependencies_table, has_dependency_table, lookup, read_attribute, read_table,
    DepView, Shape,
};
use crate::error::SanitizeError;

verus! {

/// What an inline table without a `version` attribute is checked as.
pub open spec fn missing_version() -> Seq<char> {
    seq![
        'C', 'O', 'U', 'L', 'D', ' ', 'N', 'O', 'T', ' ', 'F', 'I', 'N', 'D', ' ', 'V', 'E', 'R',
        'S', 'I', 'O', 'N',
    ]
}

pub open spec fn version_key() -> Seq<char> {
    seq!['v', 'e', 'r', 's', 'i', 'o', 'n']
}

/// The requirement text of an entry: a string's content; an integer or float
/// as written; for an inline table, its `version` attribute (the content of a
/// string, else the value as written), or a stand-in where it has none;
/// nothing for a boolean, a datetime, an array or a table.
pub open spec fn version_text(e: DepView) -> Option<Seq<char>> {
    match e.kind {
        Shape::Text => match e.string {
            Some(c) => Some(c),
            None => Some(e.text),
        },
        Shape::Integer | Shape::Float => Some(e.text),
        Shape::Inline => match lookup(e.attrs, version_key()) {
            None => Some(missing_version()),
            Some(a) => match a.string {
                Some(c) => Some(c),
                None => Some(a.text),
            },
        },
        _ => None,
    }
}

/// The requirement text of entry `i` (see `version_text`); an entry with none
/// fails with `NonVersionableEntry`, naming it.
pub fn get_crate_version(doc: &toml_edit::DocumentMut, i: usize) -> (r: Result<String, SanitizeError>)
    requires
        has_dependency_table(*doc),
        i < dependencies_of(*doc).len(),
    ensures
        match version_text(dependencies_of(*doc)[i as int]) {
            Some(v) => r matches Ok(s) && s@ == v,
            None => r matches Err(SanitizeError::NonVersionableEntry(n)) && n@ == dependencies_of(
                *doc,
            )[i as int].name,
        },
{
    let info = match read_table(doc, dependencies_table()) {
        Some(v) => v,
        None => {
            return Err(SanitizeError::MissingDependenciesTable);
        },
    };
    assert(info[i as int].matches_view(dependencies_of(*doc)[i as int]));
    let kind = info[i].kind;
    match kind {
        Shape::Text => match &info[i].string {
            Some(c) => Ok(c.clone()),
            None => Ok(info[i].text.clone()),
        },
        Shape::Integer | Shape::Float => Ok(info[i].text.clone()),
        Shape::Inline => {
            proof {
                reveal_strlit("version");
                assert("version"@ =~= version_key());
            }
            match read_attribute(doc, dependencies_table(), i, "version") {
                None => {
                    proof {
                        reveal_strlit("COULD NOT FIND VERSION");
                    }
                    Ok(String::from_str("COULD NOT FIND VERSION"))
                },
                Some((Some(c), _)) => Ok(c),
                Some((None, t)) => Ok(t),
            }
        },
        _ => Err(SanitizeError::NonVersionableEntry(info[i].name.clone())),
    }
}

} // verus!
