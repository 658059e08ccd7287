use vstd::prelude::*;
use vstd::string::StringExecFns;
use toml_edit::DocumentMut;
use crate::errors::ValidationError;
use crate::errors::ValidationErrorView;
use crate::toml::entry::DependencyType;
use crate::toml::entry::EntryView;
use crate::toml::grouping::grouping_wf;
use crate::toml::grouping::Entries;
use crate::toml::grouping::EntriesView;
use crate::toml::grouping::Grouping;
use crate::toml::grouping::GroupingView;
use crate::toml::grouping::Groups;
use crate::toml::grouping::GroupsView;
use crate::toml::keyed::distinct;
use crate::toml::keyed::first;
use crate::toml::keyed::lemma_first_found;
use crate::toml::keyed::lemma_first_none;

verus! {

/// The section of one provider: what its dependencies default to, and the
/// dependencies themselves.
#[derive(Debug)]
pub struct Provider {
    /// The kind of provider, as the section states it under `provider`.
    pub provider: Option<String>,
    /// The group that a dependency of this provider goes to when none is
    /// asked for.
    pub default_group: Option<String>,
    /// The owner of a dependency of this provider that names none.
    pub default_owner: Option<String>,
    /// The repository that the section states under `default-repository`.
    pub default_repository: Option<String>,
    /// The dependencies; `None` as long as the section holds none.
    pub dependencies: Option<Grouping>,
}

/// Mathematical model of a [`Provider`].
pub struct ProviderView {
    pub provider: Option<Seq<char>>,
    pub default_group: Option<Seq<char>>,
    pub default_owner: Option<Seq<char>>,
    pub default_repository: Option<Seq<char>>,
    pub dependencies: Option<GroupingView>,
}

impl View for Provider {
    type V = ProviderView;

    open spec fn view(&self) -> ProviderView {
        ProviderView {
            provider: self.provider.deep_view(),
            default_group: self.default_group.deep_view(),
            default_owner: self.default_owner.deep_view(),
            default_repository: self.default_repository.deep_view(),
            dependencies: self.dependencies.deep_view(),
        }
    }
}

impl DeepView for Provider {
    type V = ProviderView;

    open spec fn deep_view(&self) -> ProviderView {
        self@
    }
}

/// The sections of a manifest: each provider under its name, in the order
/// of the manifest.
pub type Providers = Vec<(String, Provider)>;

/// Mathematical model of [`Providers`].
pub type ProvidersView = Seq<(Seq<char>, ProviderView)>;

/// A manifest: what it says as values, and the document that it was read
/// from, which keeps the comments, the spacing and the order of the file.
/// Whatever is added to the one is added to the other in the same call.
#[derive(Debug)]
pub struct SinkTOML {
    /// The owner of a dependency that names none, where its provider sets
    /// no default either.
    pub default_owner: Option<String>,
    /// The group that a dependency goes to when none is asked for and its
    /// provider sets no default.
    pub default_group: Option<String>,
    /// Paths of further manifests. They are named here and not merged.
    pub includes: Vec<String>,
    /// The providers with their dependencies.
    pub providers: Providers,
    /// Where the manifest was read from and is saved to.
    pub path: String,
    /// The document.
    pub formatted: DocumentMut,
}

/// Mathematical model of what a [`SinkTOML`] says as values.
pub struct ManifestView {
    pub default_owner: Option<Seq<char>>,
    pub default_group: Option<Seq<char>>,
    pub includes: Seq<Seq<char>>,
    pub providers: ProvidersView,
}

impl View for SinkTOML {
    type V = ManifestView;

    open spec fn view(&self) -> ManifestView {
        ManifestView {
            default_owner: self.default_owner.deep_view(),
            default_group: self.default_group.deep_view(),
            includes: self.includes.deep_view(),
            providers: self.providers.deep_view(),
        }
    }
}

/// No provider is named twice, and within each provider no group and no
/// key of a list or group occurs twice.
pub open spec fn sections_wf(sections: ProvidersView) -> bool {
    &&& distinct(sections)
    &&& forall|i: int|
        0 <= i < sections.len() ==> ((#[trigger] sections[i]).1.dependencies matches Some(grouping)
            ==> grouping_wf(grouping))
}

/// The sections of the manifest are well formed: see [`sections_wf`].
pub open spec fn manifest_wf(model: ManifestView) -> bool {
    sections_wf(model.providers)
}

/// Whether an entry is no dependency.
pub open spec fn is_invalid() -> spec_fn((Seq<char>, EntryView)) -> bool {
    |entry: (Seq<char>, EntryView)| entry.1 is Invalid
}

/// The key of the first entry that is no dependency.
pub open spec fn entries_fault(entries: EntriesView) -> Option<Seq<char>> {
    match first(entries, is_invalid()) {
        Some(i) => Some(entries[i].0),
        None => None,
    }
}

/// Whether a group holds an entry that is no dependency.
pub open spec fn is_faulty_group() -> spec_fn((Seq<char>, EntriesView)) -> bool {
    |group: (Seq<char>, EntriesView)| entries_fault(group.1) is Some
}

/// The key of the first entry that is no dependency, group by group.
pub open spec fn groups_fault(groups: GroupsView) -> Option<Seq<char>> {
    match first(groups, is_faulty_group()) {
        Some(i) => entries_fault(groups[i].1),
        None => None,
    }
}

/// What is at fault in the dependencies of a provider: the key of the first
/// entry that is no dependency, or `dependencies` where they are of no known
/// shape as a whole.
pub open spec fn grouping_fault(container: Option<GroupingView>) -> Option<Seq<char>> {
    match container {
        None => None,
        Some(GroupingView::Singular(entries)) => entries_fault(entries),
        Some(GroupingView::Grouped(groups)) => groups_fault(groups),
        Some(GroupingView::Invalid) => Some("dependencies"@),
    }
}

/// Whether something is at fault in the dependencies of a provider.
pub open spec fn is_faulty_provider() -> spec_fn((Seq<char>, ProviderView)) -> bool {
    |provider: (Seq<char>, ProviderView)| grouping_fault(provider.1.dependencies) is Some
}

/// The first thing at fault in a manifest, provider by provider in the
/// order of the manifest, or `None` where every entry is a dependency.
pub open spec fn manifest_fault(providers: ProvidersView) -> Option<ValidationErrorView> {
    match first(providers, is_faulty_provider()) {
        Some(i) => Some(
            ValidationErrorView::MalformedEntries {
                provider: providers[i].0,
                key: grouping_fault(providers[i].1.dependencies)->0,
            },
        ),
        None => None,
    }
}

/// Finds the key of the first entry that is no dependency.
pub(crate) fn find_invalid_entry(entries: &Entries) -> (fault: Option<String>)
    ensures
        fault.deep_view() == entries_fault(entries.deep_view()),
{
    let mut i: usize = 0;
    while i < entries.len()
        invariant
            i <= entries.len(),
            forall|j: int| 0 <= j < i ==> !is_invalid()(#[trigger] entries.deep_view()[j]),
        decreases entries.len() - i,
    {
        assert(entries.deep_view()[i as int].1 == entries[i as int].1@);
        if let DependencyType::Invalid(_) = &entries[i].1 {
            proof {
                assert(is_invalid()(entries.deep_view()[i as int]));
                lemma_first_found(entries.deep_view(), is_invalid(), i as int);
            }
            return Some(entries[i].0.clone());
        }
        i = i + 1;
    }
    proof {
        lemma_first_none(entries.deep_view(), is_invalid());
    }
    None
}

/// Finds the key of the first entry that is no dependency, group by group.
pub(crate) fn find_invalid_grouped(groups: &Groups) -> (fault: Option<String>)
    ensures
        fault.deep_view() == groups_fault(groups.deep_view()),
{
    let mut i: usize = 0;
    while i < groups.len()
        invariant
            i <= groups.len(),
            forall|j: int| 0 <= j < i ==> !is_faulty_group()(#[trigger] groups.deep_view()[j]),
        decreases groups.len() - i,
    {
        assert(groups.deep_view()[i as int].1 == groups[i as int].1.deep_view());
        if let Some(key) = find_invalid_entry(&groups[i].1) {
            proof {
                assert(is_faulty_group()(groups.deep_view()[i as int]));
                lemma_first_found(groups.deep_view(), is_faulty_group(), i as int);
            }
            return Some(key);
        }
        i = i + 1;
    }
    proof {
        lemma_first_none(groups.deep_view(), is_faulty_group());
    }
    None
}

impl Grouping {
    /// Finds what is at fault in the dependencies of a provider.
    pub fn fault(container: &Option<Grouping>) -> (fault: Option<String>)
        ensures
            fault.deep_view() == grouping_fault(container.deep_view()),
    {
        match container {
            None => None,
            Some(Grouping::Singular(entries)) => find_invalid_entry(entries),
            Some(Grouping::Grouped(groups)) => find_invalid_grouped(groups),
            Some(Grouping::Invalid) => Some(String::from_str("dependencies")),
        }
    }
}

impl SinkTOML {
    /// Checks that every entry of every provider is a dependency. Fails
    /// with the first offender, in the order of the manifest. Changes
    /// nothing.
    pub fn validate(&self) -> (result: Result<(), ValidationError>)
        ensures
            match result {
                Ok(()) => manifest_fault(self@.providers) is None,
                Err(e) => manifest_fault(self@.providers) == Some(e@),
            },
    {
        let ghost providers = self.providers.deep_view();
        let mut i: usize = 0;
        while i < self.providers.len()
            invariant
                i <= self.providers.len(),
                providers == self.providers.deep_view(),
                forall|j: int| 0 <= j < i ==> !is_faulty_provider()(#[trigger] providers[j]),
            decreases self.providers.len() - i,
        {
            assert(providers[i as int].1 == self.providers[i as int].1@);
            if let Some(key) = Grouping::fault(&self.providers[i].1.dependencies) {
                proof {
                    assert(is_faulty_provider()(providers[i as int]));
                    lemma_first_found(providers, is_faulty_provider(), i as int);
                }
                return Err(
                    ValidationError::MalformedEntries { provider: self.providers[i].0.clone(), key },
                );
            }
            i = i + 1;
        }
        proof {
            lemma_first_none(providers, is_faulty_provider());
        }
        Ok(())
    }
}

} // verus!
