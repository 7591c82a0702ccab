//! The single error type every fallible operation of this crate reports.

use vstd::prelude::*;

verus! {

/// What can go wrong while scanning the corpus or extracting one file.
///
/// Traversal failures (`WalkDir`) abort a whole corpus walk; the other
/// variants are scoped to a single file.  The payload of `Io`, `WalkDir`
/// and `Yaml` is the underlying diagnostic text; the payload of
/// `DescriptionInvalid` is the path of the file in which no metadata
/// block could be recognized.
#[derive(Debug, Clone, PartialEq)]
pub enum Error {
    /// A file could not be read.
    Io(String),
    /// The filesystem traversal reported a failure for some entry.
    WalkDir(String),
    /// The metadata block was found but does not decode against the
    /// schema, or is not well-formed YAML.
    Yaml(String),
    /// No metadata block could be recognized in the file at the carried
    /// path.
    DescriptionInvalid(String),
}

} // verus!
