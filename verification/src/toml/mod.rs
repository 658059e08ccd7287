pub mod add;
pub mod agreement;
pub mod document;
pub mod entry;
pub mod grouping;
pub mod install;
pub mod keyed;
pub mod laws;
pub mod load;
pub mod manifest;
pub mod tree;

pub use entry::DependencyType;
pub use manifest::SinkTOML;
