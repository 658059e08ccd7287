use vstd::prelude::*;
use vstd::string::StringExecFns;
use toml_edit::Item;
use crate::github::dependency::_default_true;
use crate::github::dependency::dependency_of;
use crate::github::dependency::DependencyView;
use crate::github::dependency::GitHubDependency;
use crate::github::version::version_of_text;
use crate::github::version::GitHubVersion;
use crate::github::version::VersionView;
use crate::toml::document::item_tree;
use crate::toml::document::table_get;
use crate::toml::tree::child;
use crate::toml::tree::TreeView;

verus! {

/// Why an entry of a manifest is no dependency.
#[derive(Debug, Clone, Copy, PartialEq, Eq)]
pub enum Malformation {
    /// It is neither a string nor a table.
    Shape,
    /// Its table has no string under `version`.
    Version,
    /// Its table has no string under `destination`.
    Destination,
    /// Its table has something other than a boolean under `gitignore`.
    Gitignore,
    /// What names its assets is no pathspec.
    Pathspec,
}

/// What stands under one key of a provider's dependencies.
#[derive(Debug)]
pub enum DependencyType {
    /// The short form: only the version. The key names the assets.
    Version(GitHubVersion),
    /// The full form, with every field.
    Full(GitHubDependency),
    /// Neither: kept, so that the manifest can be refused by name instead of
    /// the entry being dropped.
    Invalid(Malformation),
}

/// Mathematical model of a [`DependencyType`].
pub enum EntryView {
    Version(VersionView),
    Full(DependencyView),
    Invalid(Malformation),
}

impl View for DependencyType {
    type V = EntryView;

    open spec fn view(&self) -> EntryView {
        match self {
            DependencyType::Version(version) => EntryView::Version(version@),
            DependencyType::Full(dependency) => EntryView::Full(dependency@),
            DependencyType::Invalid(why) => EntryView::Invalid(*why),
        }
    }
}

impl DeepView for DependencyType {
    type V = EntryView;

    open spec fn deep_view(&self) -> EntryView {
        self@
    }
}

impl Clone for DependencyType {
    fn clone(&self) -> (copy: Self)
        ensures
            copy@ == self@,
    {
        match self {
            DependencyType::Version(version) => DependencyType::Version(version.clone()),
            DependencyType::Full(dependency) => DependencyType::Full(dependency.clone()),
            DependencyType::Invalid(why) => DependencyType::Invalid(*why),
        }
    }
}

/// The text that names the assets of a full entry: what its table holds
/// under `repository`, else under `origin`, else the key of the entry.
pub open spec fn pathspec_source(key: Seq<char>, node: TreeView) -> Seq<char> {
    match child(node, "repository"@) {
        TreeView::Text(text) => text,
        _ => match child(node, "origin"@) {
            TreeView::Text(text) => text,
            _ => key,
        },
    }
}

/// The full entry with the given fields, or the reason why its assets
/// cannot be named.
pub open spec fn full_entry(
    source: Seq<char>,
    version: Seq<char>,
    destination: Seq<char>,
    gitignore: bool,
    default_owner: Option<Seq<char>>,
) -> EntryView {
    match dependency_of(
        source,
        Some(destination),
        Some(version_of_text(version)),
        gitignore,
        default_owner,
    ) {
        Ok(dependency) => EntryView::Full(dependency),
        Err(_) => EntryView::Invalid(Malformation::Pathspec),
    }
}

/// The entry that a node of a document stands for. A string is the short
/// form, whatever it says. A table is the full form if it holds a string
/// under `version`, a string under `destination`, at most a boolean under
/// `gitignore` (taken as `true` where it is missing) and names its assets
/// by a pathspec; keys that it holds besides are passed over. Everything
/// else is invalid, for the first reason in the order of [`Malformation`].
pub open spec fn entry_of(key: Seq<char>, node: TreeView, default_owner: Option<Seq<char>>) -> EntryView {
    match node {
        TreeView::Text(text) => EntryView::Version(version_of_text(text)),
        TreeView::Table(_, _) => match child(node, "version"@) {
            TreeView::Text(version) => match child(node, "destination"@) {
                TreeView::Text(destination) => match child(node, "gitignore"@) {
                    TreeView::Absent => full_entry(
                        pathspec_source(key, node),
                        version,
                        destination,
                        true,
                        default_owner,
                    ),
                    TreeView::Flag(gitignore) => full_entry(
                        pathspec_source(key, node),
                        version,
                        destination,
                        gitignore,
                        default_owner,
                    ),
                    _ => EntryView::Invalid(Malformation::Gitignore),
                },
                _ => EntryView::Invalid(Malformation::Destination),
            },
            _ => EntryView::Invalid(Malformation::Version),
        },
        _ => EntryView::Invalid(Malformation::Shape),
    }
}

/// The string under a key of a table, if a string stands there.
pub(crate) fn text_under(item: &Item, key: &str) -> (text: Option<String>)
    ensures
        match text {
            Some(s) => child(item_tree(*item), key@) == TreeView::Text(s@),
            None => !(child(item_tree(*item), key@) is Text),
        },
{
    match table_get(item, key) {
        Some(node) => match node.as_str() {
            Some(s) => Some(String::from_str(s)),
            None => None,
        },
        None => None,
    }
}

impl DependencyType {
    /// Reads the entry under `key` from the item that stands there.
    pub fn read(key: &str, item: &Item, default_owner: &Option<String>) -> (entry: DependencyType)
        ensures
            entry@ == entry_of(key@, item_tree(*item), default_owner.deep_view()),
    {
        if let Some(text) = item.as_str() {
            return DependencyType::Version(GitHubVersion::parse(text));
        }
        if !item.is_table_like() {
            return DependencyType::Invalid(Malformation::Shape);
        }
        let version = match text_under(item, "version") {
            Some(version) => version,
            None => {
                return DependencyType::Invalid(Malformation::Version);
            },
        };
        let destination = match text_under(item, "destination") {
            Some(destination) => destination,
            None => {
                return DependencyType::Invalid(Malformation::Destination);
            },
        };
        let gitignore = match table_get(item, "gitignore") {
            Some(node) => match node.as_bool() {
                Some(flag) => flag,
                None => {
                    if node.is_none() {
                        _default_true()
                    } else {
                        return DependencyType::Invalid(Malformation::Gitignore);
                    }
                },
            },
            None => _default_true(),
        };
        let source = match text_under(item, "repository") {
            Some(text) => text,
            None => match text_under(item, "origin") {
                Some(text) => text,
                None => String::from_str(key),
            },
        };
        let version = GitHubVersion::parse(version.as_str());
        match GitHubDependency::new(source, Some(destination), Some(version), gitignore, default_owner) {
            Ok(dependency) => DependencyType::Full(dependency),
            Err(_) => DependencyType::Invalid(Malformation::Pathspec),
        }
    }
}

} // verus!
