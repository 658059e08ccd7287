use vstd::prelude::*;
use vstd::string::StringExecFns;
use crate::errors::ParseError;
use crate::errors::ParseErrorView;
use crate::github::pathspec::resolve_pathspec;
use crate::github::pathspec::GitHubPathspec;
use crate::github::pathspec::PathspecView;
use crate::github::version::GitHubVersion;
use crate::github::version::VersionView;

verus! {

/// A dependency on release assets: which assets, which release of them,
/// where the files go, and whether version control is to ignore them.
#[derive(Debug)]
pub struct GitHubDependency {
    /// The assets.
    pub pathspec: GitHubPathspec,
    /// The directory that the files are put into: absolute, or relative to
    /// the directory of the manifest.
    pub destination: String,
    /// The release.
    pub version: GitHubVersion,
    /// Whether the files are listed for version control to ignore.
    pub gitignore: bool,
}

/// Mathematical model of a [`GitHubDependency`].
pub struct DependencyView {
    pub pathspec: PathspecView,
    pub destination: Seq<char>,
    pub version: VersionView,
    pub gitignore: bool,
}

impl View for GitHubDependency {
    type V = DependencyView;

    open spec fn view(&self) -> DependencyView {
        DependencyView {
            pathspec: self.pathspec@,
            destination: self.destination@,
            version: self.version@,
            gitignore: self.gitignore,
        }
    }
}

impl DeepView for GitHubDependency {
    type V = DependencyView;

    open spec fn deep_view(&self) -> DependencyView {
        self@
    }
}

/// The destination of a dependency that names none: the directory of the
/// manifest itself.
pub open spec fn default_destination() -> Seq<char> {
    "."@
}

/// The dependency that the given fields describe: the pathspec is resolved
/// against the default owner, a missing destination is the manifest's own
/// directory and a missing version is the latest release. The only way to
/// fail is for the pathspec to be malformed.
pub open spec fn dependency_of(
    dependency: Seq<char>,
    destination: Option<Seq<char>>,
    version: Option<VersionView>,
    gitignore: bool,
    default_owner: Option<Seq<char>>,
) -> Result<DependencyView, ParseErrorView> {
    match resolve_pathspec(dependency, default_owner) {
        Ok(pathspec) => Ok(
            DependencyView {
                pathspec,
                destination: match destination {
                    Some(d) => d,
                    None => default_destination(),
                },
                version: match version {
                    Some(v) => v,
                    None => VersionView::Latest,
                },
                gitignore,
            },
        ),
        Err(e) => Err(e),
    }
}

/// Whether a dependency that does not say so is ignored by version control:
/// it is.
pub fn _default_true() -> (flag: bool)
    ensures
        flag,
{
    true
}

impl Clone for GitHubDependency {
    fn clone(&self) -> (copy: Self)
        ensures
            copy@ == self@,
    {
        GitHubDependency {
            pathspec: self.pathspec.clone(),
            destination: self.destination.clone(),
            version: self.version.clone(),
            gitignore: self.gitignore,
        }
    }
}

impl GitHubDependency {
    /// Builds a dependency from the fields that a user gives. Fails exactly
    /// when the identifier cannot be read, neither as it stands nor behind
    /// the default owner.
    pub fn new(
        dependency: String,
        destination: Option<String>,
        version: Option<GitHubVersion>,
        gitignore: bool,
        default_owner: &Option<String>,
    ) -> (result: Result<GitHubDependency, ParseError>)
        ensures
            match result {
                Ok(d) => dependency_of(
                    dependency@,
                    destination.deep_view(),
                    version.deep_view(),
                    gitignore,
                    default_owner.deep_view(),
                ) == Ok::<DependencyView, ParseErrorView>(d@),
                Err(e) => dependency_of(
                    dependency@,
                    destination.deep_view(),
                    version.deep_view(),
                    gitignore,
                    default_owner.deep_view(),
                ) == Err::<DependencyView, ParseErrorView>(e@),
            },
    {
        let pathspec = match GitHubPathspec::parse(dependency.as_str(), default_owner) {
            Ok(pathspec) => pathspec,
            Err(e) => {
                return Err(e);
            },
        };
        Ok(
            GitHubDependency {
                pathspec,
                destination: match destination {
                    Some(d) => d,
                    None => String::from_str("."),
                },
                version: match version {
                    Some(v) => v,
                    None => GitHubVersion::Latest,
                },
                gitignore,
            },
        )
    }
}

} // verus!
