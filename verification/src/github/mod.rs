pub mod add;
pub mod dependency;
pub mod pathspec;
pub mod version;

pub use add::add;
pub use add::add_after;
pub use dependency::GitHubDependency;
pub use pathspec::GitHubPathspec;
pub use version::GitHubVersion;
