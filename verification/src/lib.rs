//! Tapestry generates SQL queries, and the tests of those queries, from
//! templates. A manifest declares the query templates, the queries that are
//! made from them by switching conditions on, and the test templates; the
//! library decodes and validates the manifest, renders queries and tests,
//! lays the rendered queries out in files, and tells which outputs a new
//! rendering would add or modify.
//!
//! The library does not touch the file system and starts no program: it is
//! given the text of the manifest, the sources of the templates and the
//! bytes of the outputs, and says what is to be written.

pub mod bindings;
pub mod command;
pub mod config;
pub mod error;
pub mod formatters;
pub mod metadata;
pub mod output;
pub mod paths;
pub mod pattern;
pub mod placeholder;
pub mod query;
pub mod query_template;
pub mod render;
pub mod scaffolding;
pub mod strset;
pub mod tagging;
pub mod test_template;
pub mod text;
pub mod util;
pub mod validation;
