use vstd::prelude::*;
use toml_edit::Item;
use crate::errors::add_context;
use crate::errors::cause_chain;
use crate::errors::is_add_failure;
use crate::errors::SinkError;
use crate::errors::SinkErrorView;
use crate::github::dependency::DependencyView;
use crate::github::dependency::GitHubDependency;
use crate::github::pathspec::is_complete;
use crate::github::pathspec::is_well_formed;
use crate::github::pathspec::lemma_pathspec_round_trip;
use crate::github::pathspec::pathspec_text;
use crate::github::version::lemma_version_round_trip;
use crate::github::version::text_of_version;
use crate::github::version::VersionView;
use crate::toml::add::add_fault;
use crate::toml::add::container_path;
use crate::toml::add::fits;
use crate::toml::add::headed_at;
use crate::toml::add::group_for;
use crate::toml::add::key_path;
use crate::toml::add::manifest_with;
use crate::toml::agreement::owner_of;
use crate::toml::document::document_tree;
use crate::toml::document::entry_mut;
use crate::toml::document::flag_item;
use crate::toml::document::inline_table;
use crate::toml::document::item_tree;
use crate::toml::document::text_item;
use crate::toml::entry::entry_of;
use crate::toml::load::is_reserved;
use crate::toml::entry::DependencyType;
use crate::toml::entry::EntryView;
use crate::toml::manifest::ManifestView;
use crate::toml::manifest::SinkTOML;
use crate::toml::tree::child;
use crate::toml::tree::is_headed;
use crate::toml::tree::lemma_written_lookup;
use crate::toml::tree::lookup;
use crate::toml::tree::written;
use crate::toml::tree::TreeView;

verus! {

/// The name of the section that holds the dependencies on release assets.
pub open spec fn provider_name() -> Seq<char> {
    "GitHub"@
}

/// The entry that a dependency is added as: only its version in the short
/// form, all of it in the full form.
pub open spec fn added_entry(dependency: DependencyView, short_form: bool) -> EntryView {
    if short_form {
        EntryView::Version(dependency.version)
    } else {
        EntryView::Full(dependency)
    }
}

/// Whether a node of a document is what a dependency is written as: in the
/// short form the version as a string; in the full form a table that holds
/// the version, the destination and the flag, and nothing else, and that
/// stands under a header of its own exactly if `headed` says so.
pub open spec fn is_value_of(
    tree: TreeView,
    dependency: DependencyView,
    short_form: bool,
    headed: bool,
) -> bool {
    if short_form {
        tree == TreeView::Text(text_of_version(dependency.version))
    } else {
        &&& tree is Table
        &&& is_headed(tree) == headed
        &&& child(tree, "version"@) == TreeView::Text(text_of_version(dependency.version))
        &&& child(tree, "destination"@) == TreeView::Text(dependency.destination)
        &&& child(tree, "gitignore"@) == TreeView::Flag(dependency.gitignore)
        &&& forall|key: Seq<char>|
            key != "version"@ && key != "destination"@ && key != "gitignore"@ ==> (#[trigger] child(
                tree,
                key,
            )) is Absent
    }
}

/// Why a dependency cannot be added to a manifest whose document holds
/// `tree`: a part of its pathspec is empty, or the manifest refuses the
/// entry. `None` if it can be added.
pub open spec fn add_fault_of(model: ManifestView, tree: TreeView, dependency: DependencyView) -> Option<
    SinkErrorView,
> {
    let key = pathspec_text(dependency.pathspec);
    if !is_complete(dependency.pathspec) {
        Some(SinkErrorView::InvalidDependency(key))
    } else {
        match add_fault(model, tree, provider_name(), None, key) {
            Some(why) => Some(SinkErrorView::Add(why)),
            None => None,
        }
    }
}

proof fn lemma_provider_is_no_setting()
    ensures
        !is_reserved(provider_name()),
{
    reveal_strlit("GitHub");
    reveal_strlit("default-owner");
    reveal_strlit("default-group");
    reveal_strlit("includes");
    assert("GitHub"@.len() == 6);
    assert("default-owner"@.len() == 13);
    assert("default-group"@.len() == 13);
    assert("includes"@.len() == 8);
}

proof fn lemma_field_names_differ()
    ensures
        "version"@ != "destination"@,
        "version"@ != "gitignore"@,
        "destination"@ != "gitignore"@,
        "repository"@ != "version"@,
        "repository"@ != "destination"@,
        "repository"@ != "gitignore"@,
        "origin"@ != "version"@,
        "origin"@ != "destination"@,
        "origin"@ != "gitignore"@,
{
    reveal_strlit("version");
    reveal_strlit("destination");
    reveal_strlit("gitignore");
    reveal_strlit("repository");
    reveal_strlit("origin");
    assert("version"@.len() == 7);
    assert("destination"@.len() == 11);
    assert("gitignore"@.len() == 9);
    assert("repository"@.len() == 10);
    assert("origin"@.len() == 6);
}

/// What was written for a dependency is read back as the entry that was
/// added, under the key that the dependency was added under: the two
/// representations of a manifest agree on it. This holds of a dependency
/// whose pathspec is well formed and whose tag, if it has one, is none of
/// the two reserved words.
pub proof fn lemma_value_reads_back(
    tree: TreeView,
    dependency: DependencyView,
    short_form: bool,
    headed: bool,
    default_owner: Option<Seq<char>>,
)
    requires
        is_value_of(tree, dependency, short_form, headed),
        is_well_formed(dependency.pathspec),
        dependency.version != VersionView::Tag("latest"@),
        dependency.version != VersionView::Tag("prerelease"@),
    ensures
        entry_of(pathspec_text(dependency.pathspec), tree, default_owner) == added_entry(
            dependency,
            short_form,
        ),
{
    lemma_version_round_trip(dependency.version);
    if !short_form {
        lemma_field_names_differ();
        lemma_pathspec_round_trip(dependency.pathspec);
        assert(child(tree, "repository"@) is Absent);
        assert(child(tree, "origin"@) is Absent);
    }
}

/// Writes a dependency as a value of a document: in the short form the
/// version alone; in the full form a table of version, destination and
/// flag, under a header of its own if `headed` says so and in one line
/// if not. What is written [`fits`] a table that is written as `headed`
/// says.
pub fn formatted_value(dependency: &GitHubDependency, short_form: bool, headed: bool) -> (value: Item)
    ensures
        is_value_of(item_tree(value), dependency@, short_form, headed),
        fits(item_tree(value), headed),
{
    if short_form {
        return text_item(dependency.version.to_string());
    }
    proof {
        lemma_field_names_differ();
    }
    let mut table = if headed {
        toml_edit::table()
    } else {
        inline_table()
    };
    let slot = entry_mut(&mut table, "version");
    *slot = text_item(dependency.version.to_string());
    let slot = entry_mut(&mut table, "destination");
    *slot = text_item(dependency.destination.clone());
    let slot = entry_mut(&mut table, "gitignore");
    *slot = flag_item(dependency.gitignore);
    table
}

/// Tells why a dependency cannot be added to a manifest; `None` if it can.
/// Changes nothing.
pub fn refusal(sink_toml: &SinkTOML, dependency: &GitHubDependency) -> (why: Option<SinkError>)
    ensures
        why.deep_view() == add_fault_of(
            sink_toml@,
            document_tree(sink_toml.formatted),
            dependency@,
        ),
{
    let key = dependency.pathspec.to_string();
    if !dependency.pathspec.is_valid() {
        return Some(SinkError::InvalidDependency(key));
    }
    match sink_toml.refusal("GitHub", &None, key.as_str()) {
        Some(why) => Some(SinkError::Add(why)),
        None => None,
    }
}

/// Whether `after` is `before` with a dependency added: under its pathspec
/// as the key and in the group that the manifest defaults to, the entry
/// stands in the manifest and what the dependency is written as stands in
/// the document under the same keys, and nothing else has changed. The
/// full form is written as the table is that it goes in: under a header
/// of its own in a table that has one, in one line in a table that is
/// written in one line. So what is written fits the table that it is in.
pub open spec fn is_added(
    before: SinkTOML,
    dependency: DependencyView,
    short_form: bool,
    after: SinkTOML,
) -> bool {
    let key = pathspec_text(dependency.pathspec);
    let group = group_for(before@, provider_name(), None);
    let path = key_path(provider_name(), group, key);
    let holder = container_path(provider_name(), group);
    let tree = document_tree(after.formatted);
    let headed = headed_at(document_tree(before.formatted), holder);
    &&& after@ == manifest_with(
        before@,
        provider_name(),
        None,
        key,
        added_entry(dependency, short_form),
    )
    &&& written(document_tree(before.formatted), path, lookup(tree, path), tree)
    &&& is_value_of(lookup(tree, path), dependency, short_form, headed)
    &&& is_headed(lookup(tree, holder)) == headed
    &&& fits(lookup(tree, path), headed)
    &&& after.path == before.path
}

/// Whether a dependency can be read back from what it is written as: its
/// pathspec is well formed, and its tag, if it has one, is none of the
/// two reserved words.
pub open spec fn reads_back(dependency: DependencyView) -> bool {
    &&& is_well_formed(dependency.pathspec)
    &&& dependency.version != VersionView::Tag("latest"@)
    &&& dependency.version != VersionView::Tag("prerelease"@)
}

/// Why a dependency is not added once the attempt to install it has come
/// back: for the reason that [`add_fault_of`] gives, which stands before
/// any attempt to install; else because the attempt failed. `None` if the
/// dependency is added.
pub open spec fn add_fault_after(
    model: ManifestView,
    tree: TreeView,
    dependency: DependencyView,
    downloaded: Result<(), Seq<char>>,
) -> Option<SinkErrorView> {
    match add_fault_of(model, tree, dependency) {
        Some(fault) => Some(fault),
        None => match downloaded {
            Ok(()) => None,
            Err(cause) => Some(SinkErrorView::Download(cause)),
        },
    }
}

/// The model of what an attempt to install has come back with.
pub open spec fn outcome_view(downloaded: Result<(), String>) -> Result<(), Seq<char>> {
    match downloaded {
        Ok(()) => Ok(()),
        Err(cause) => Err(cause@),
    }
}

/// Adds a dependency to a manifest, under its pathspec as the key and in
/// the group that the manifest defaults to, in the short form or in the
/// full one. Fails exactly where [`add_fault_of`] gives a reason, and
/// every failure is reported as a failure to add, with its cause behind
/// that. Otherwise the manifest comes back as [`is_added`] says. A
/// manifest that was consistent stays so, provided that the dependency
/// can be read back from what it is written as.
pub fn add(sink_toml: SinkTOML, dependency: GitHubDependency, short_form: bool) -> (result: Result<
    SinkTOML,
    SinkError,
>)
    ensures
        match add_fault_of(sink_toml@, document_tree(sink_toml.formatted), dependency@) {
            Some(fault) => result matches Err(e) && e@ == fault,
            None => result matches Ok(manifest) && is_added(
                sink_toml,
                dependency@,
                short_form,
                manifest,
            ),
        },
        result matches Err(e) ==> is_add_failure(e@) && cause_chain(e@)[0] == add_context(),
        sink_toml.is_consistent() && reads_back(dependency@) ==> (result matches Ok(manifest)
            ==> manifest.is_consistent()),
{
    let key = dependency.pathspec.to_string();
    if !dependency.pathspec.is_valid() {
        return Err(SinkError::InvalidDependency(key));
    }
    let headed = sink_toml.holds_headed("GitHub", &None);
    let value = formatted_value(&dependency, short_form, headed);
    proof {
        lemma_provider_is_no_setting();
        if reads_back(dependency@) {
            lemma_value_reads_back(
                item_tree(value),
                dependency@,
                short_form,
                headed,
                owner_of(sink_toml@, provider_name()),
            );
        }
    }
    let entry = if short_form {
        DependencyType::Version(dependency.version.clone())
    } else {
        DependencyType::Full(dependency)
    };
    let mut manifest = sink_toml;
    let ghost before = document_tree(manifest.formatted);
    let ghost path = key_path(provider_name(), group_for(manifest@, provider_name(), None), key@);
    match manifest.add_dependency("GitHub", None, key, entry, value) {
        Ok(()) => {
            proof {
                lemma_written_lookup(before, path, item_tree(value), document_tree(manifest.formatted));
            }
            Ok(manifest)
        },
        Err(why) => Err(SinkError::Add(why)),
    }
}

/// Adds a dependency to a manifest once the attempt to install it has come
/// back, as [`add`] does, but only if the attempt succeeded. Where the
/// manifest would refuse the dependency, that is the failure, whatever
/// the attempt came back with; else a failed attempt is the failure, with
/// what it came back with as the cause, and nothing is added.
pub fn add_after(
    sink_toml: SinkTOML,
    dependency: GitHubDependency,
    short_form: bool,
    downloaded: Result<(), String>,
) -> (result: Result<SinkTOML, SinkError>)
    ensures
        match add_fault_after(
            sink_toml@,
            document_tree(sink_toml.formatted),
            dependency@,
            outcome_view(downloaded),
        ) {
            Some(fault) => result matches Err(e) && e@ == fault,
            None => result matches Ok(manifest) && is_added(
                sink_toml,
                dependency@,
                short_form,
                manifest,
            ),
        },
        result matches Err(e) ==> is_add_failure(e@) && cause_chain(e@)[0] == add_context(),
        sink_toml.is_consistent() && reads_back(dependency@) ==> (result matches Ok(manifest)
            ==> manifest.is_consistent()),
{
    if let Some(why) = refusal(&sink_toml, &dependency) {
        return Err(why);
    }
    match downloaded {
        Ok(()) => self::add(sink_toml, dependency, short_form),
        Err(cause) => Err(SinkError::Download(cause)),
    }
}

} // verus!
