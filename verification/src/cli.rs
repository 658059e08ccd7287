use vstd::prelude::*;
use vstd::string::StringExecFns;
use crate::errors::ParseError;
use crate::errors::ParseErrorView;
use crate::github::dependency::dependency_of;
use crate::github::dependency::DependencyView;
use crate::github::dependency::GitHubDependency;
use crate::github::version::GitHubVersion;

verus! {

/// What was asked for on the command line.
#[derive(Debug)]
pub struct SinkCLI {
    /// What to do.
    pub command: SinkSubcommands,
    /// Whether to report more than usual.
    pub verbose: bool,
    /// The manifest to work on, if one was named.
    pub file: Option<String>,
}

/// The things that can be asked for.
#[derive(Debug)]
pub enum SinkSubcommands {
    /// Show the manifest.
    Config(SubcommandConfig),
    /// Install the dependencies.
    Install(SubcommandInstall),
    /// Add a dependency.
    Add(SubcommandAdd),
    /// Remove a dependency.
    Remove(SubcommandRemove),
}

/// How to show the manifest.
#[derive(Debug)]
pub struct SubcommandConfig {
    /// As the values that it holds.
    pub all: bool,
    /// As the text of its file.
    pub toml: bool,
    /// As a list of its dependencies.
    pub list: bool,
    /// A setting to change first, as `key=value`.
    pub update: Option<String>,
}

/// How to install.
#[derive(Debug)]
pub struct SubcommandInstall {
    /// Whether to go by the lock file.
    pub sink: bool,
}

/// The dependency to add, as the user gave it.
#[derive(Debug)]
pub struct SubcommandAdd {
    /// The assets, as `owner/repository:pattern`, or as `repository:pattern`
    /// where the manifest sets a default owner.
    pub dependency: String,
    /// Where the files go.
    pub destination: Option<String>,
    /// The release.
    pub version: Option<GitHubVersion>,
    /// Whether version control is to see the files.
    pub no_gitignore: bool,
    /// Whether to write the entry in the short form.
    pub short: bool,
}

/// The dependency to remove.
#[derive(Debug)]
pub struct SubcommandRemove {
    /// The assets, as `owner/repository:pattern`.
    pub dependency: String,
}

/// The file that is worked on when none is named, or when the one that is
/// named is not there.
pub open spec fn default_manifest_path() -> Seq<char> {
    "sink.toml"@
}

/// The level from which on messages are reported.
pub open spec fn log_filter_of(verbose: bool) -> Seq<char> {
    if verbose {
        "debug"@
    } else {
        "info"@
    }
}

impl SinkCLI {
    /// The manifest to work on: the file that was named, if one was and
    /// `exists` says that it is there; else the default.
    pub fn manifest_path(&self, exists: bool) -> (path: String)
        ensures
            path@ == match self.file {
                Some(file) if exists => file@,
                _ => default_manifest_path(),
            },
    {
        match &self.file {
            Some(file) if exists => file.clone(),
            _ => String::from_str("sink.toml"),
        }
    }

    /// The level from which on messages are reported: everything when
    /// `verbose` is set.
    pub fn log_filter(&self) -> (level: String)
        ensures
            level@ == log_filter_of(self.verbose),
    {
        if self.verbose {
            String::from_str("debug")
        } else {
            String::from_str("info")
        }
    }
}

impl SubcommandAdd {
    /// The dependency that is to be added: the files are ignored by version
    /// control unless the user said otherwise.
    pub fn dependency(self, default_owner: &Option<String>) -> (result: Result<
        GitHubDependency,
        ParseError,
    >)
        ensures
            match result {
                Ok(d) => dependency_of(
                    self.dependency@,
                    self.destination.deep_view(),
                    self.version.deep_view(),
                    !self.no_gitignore,
                    default_owner.deep_view(),
                ) == Ok::<DependencyView, ParseErrorView>(d@),
                Err(e) => dependency_of(
                    self.dependency@,
                    self.destination.deep_view(),
                    self.version.deep_view(),
                    !self.no_gitignore,
                    default_owner.deep_view(),
                ) == Err::<DependencyView, ParseErrorView>(e@),
            },
    {
        GitHubDependency::new(
            self.dependency,
            self.destination,
            self.version,
            !self.no_gitignore,
            default_owner,
        )
    }
}

} // verus!
