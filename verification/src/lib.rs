//! A small static site generator's verified core.
//!
//! The library mirrors a source tree into an output tree: stylesheets are
//! rewritten, markup pages are rendered through the template engine, content
//! documents are converted to markup and bound to a layout, and every other
//! file is copied byte for byte.  The surrounding binary does the filesystem
//! walking and hands the tree in as plain values.

pub mod paths;
pub mod config;
pub mod engines;
pub mod generator;
