//! Strips source-location keys from a manifest's dependency entries and
//! checks version requirements against a registry index.
use vstd::prelude::*;

pub mod document;
pub mod error;
pub mod index;
pub mod mode;
pub mod registry;
pub mod sanitize;
pub mod version;

verus! {

} // verus!
