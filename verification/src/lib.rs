//! A generator that turns a directory of linked text documents into a
//! navigable hierarchical site: a table-of-contents summary declares an
//! ordered, nestable set of chapters; each chapter's content is loaded, its
//! cross-document references are rewritten to point at the generated output
//! locations, and a set of deduplicated, cache-busted static assets is
//! planned alongside.
//!
//! The crate is a library of the pure logic: reading and writing the disk,
//! the command line and the template engine stay with the caller, which
//! hands in plain values (file contents, configuration, theme bytes) and
//! takes plain values back (the loaded tree, rendered bodies, the write
//! plan).

pub mod book;
pub mod errors;
pub mod links;
pub mod paths;
pub mod render;
pub mod renderer;
pub mod static_files;
pub mod store;
pub mod utils;
