//! Extraction of embedded metadata from a corpus of conformance-test
//! source files.
//!
//! A corpus file carries a YAML document between the markers `/*---` and
//! `---*/` near its top, optionally preceded by a copyright/license
//! comment block.  This crate locates those regions, decodes the metadata
//! into a typed schema, and drives the per-file extraction over a
//! pre-walked list of candidate files.  All positions this crate speaks
//! of are character offsets into the text.

pub mod boundary;
pub mod error;
pub mod harness;
pub mod schema;
pub mod text;
pub mod yaml;

pub use error::Error;
pub use harness::{Harness, Test, WalkEntry};
pub use schema::{Description, Flag, Negative, Phase};
