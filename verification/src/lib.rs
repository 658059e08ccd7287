//! The manifest of a dependency installer: which release assets a project
//! depends on, grouped by provider and, where the user wants it, by named
//! groups.
//!
//! A manifest is held twice: as values, which are validated and added to,
//! and as the document that it was read from, which keeps the comments, the
//! spacing and the order of the file. Whatever is added goes into both in
//! one call, and the contracts say what each of the two then holds.

pub mod cli;
pub mod errors;
pub mod github;
pub mod toml;

pub use errors::SinkError;
pub use toml::SinkTOML;
