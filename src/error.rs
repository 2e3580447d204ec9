use vstd::prelude::*;

verus! {

/// Everything that can stop a run. All of them are fatal: no output is written.
#[derive(Debug, Clone, PartialEq, Eq)]
pub enum SanitizeError {
    /// The input is not a well-formed document.
    ParseError,
    /// The document has no table-like `dependencies` entry.
    MissingDependenciesTable,
    /// The named dependency is written as a full sub-table or an array of tables.
    UnsupportedEntryShape(String),
    /// The named dependency carries no value a version requirement can come from.
    NonVersionableEntry(String),
    /// A package name of length zero has no index path.
    InvalidCrateName,
    /// The given text is not a version-requirement expression.
    InvalidVersionRequirement(String),
    /// The registry could not be reached for the named package.
    RegistryUnreachable(String),
    /// The registry's answer for the named package could not be decoded.
    RegistryMalformedResponse(String),
}

} // verus!
