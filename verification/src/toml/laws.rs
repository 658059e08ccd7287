use vstd::prelude::*;
use crate::errors::AddErrorView;
use crate::toml::add::add_fault;
use crate::toml::add::container_of;
use crate::toml::add::empty_section;
use crate::toml::add::group_for;
use crate::toml::add::manifest_with;
use crate::toml::entry::EntryView;
use crate::toml::grouping::grouping_wf;
use crate::toml::grouping::lemma_with_entry_wf;
use crate::toml::grouping::refusal;
use crate::toml::grouping::with_entry;
use crate::toml::grouping::EntriesView;
use crate::toml::grouping::GroupingView;
use crate::toml::grouping::GroupsView;
use crate::toml::keyed::contains_key;
use crate::toml::keyed::distinct;
use crate::toml::keyed::is_first_at;
use crate::toml::keyed::lemma_first_exists;
use crate::toml::keyed::lemma_first_none_iff;
use crate::toml::keyed::lemma_first_unique;
use crate::toml::keyed::lemma_push_distinct;
use crate::toml::keyed::lemma_update_distinct;
use crate::toml::keyed::position;
use crate::toml::manifest::entries_fault;
use crate::toml::manifest::grouping_fault;
use crate::toml::manifest::groups_fault;
use crate::toml::manifest::is_faulty_group;
use crate::toml::manifest::is_faulty_provider;
use crate::toml::manifest::is_invalid;
use crate::toml::manifest::manifest_fault;
use crate::toml::manifest::manifest_wf;
use crate::toml::manifest::ProvidersView;
use crate::toml::manifest::ManifestView;
use crate::toml::manifest::ProviderView;
use crate::toml::tree::TreeView;

verus! {

/// After an entry was added to a provider, the provider has a section,
/// with the defaults that it had and with the dependencies grown by the
/// entry.
pub proof fn lemma_section_after_add(
    model: ManifestView,
    provider: Seq<char>,
    requested: Option<Seq<char>>,
    key: Seq<char>,
    entry: EntryView,
)
    ensures
        ({
            let after = manifest_with(model, provider, requested, key, entry);
            &&& group_for(after, provider, requested) == group_for(model, provider, requested)
            &&& container_of(after, provider) == Some(
                with_entry(
                    container_of(model, provider),
                    group_for(model, provider, requested),
                    key,
                    entry,
                ),
            )
        }),
{
    let after = manifest_with(model, provider, requested, key, entry);
    if contains_key(model.providers, provider) {
        lemma_first_exists(model.providers, provider);
        let i = position(model.providers, provider);
        assert(is_first_at(after.providers, provider, i)) by {
            assert forall|j: int| 0 <= j < i implies (#[trigger] after.providers[j]).0 != provider by {
                assert(model.providers[j].0 != provider);
            }
        }
        lemma_first_unique(after.providers, provider, i);
    } else {
        let i = model.providers.len() as int;
        assert(is_first_at(after.providers, provider, i)) by {
            assert forall|j: int| 0 <= j < i implies (#[trigger] after.providers[j]).0 != provider by {
                assert(model.providers[j].0 != provider);
            }
        }
        lemma_first_unique(after.providers, provider, i);
    }
}

/// The key of an entry that was added is taken where the entry went.
pub proof fn lemma_added_key_taken(
    container: Option<GroupingView>,
    group: Option<Seq<char>>,
    key: Seq<char>,
    entry: EntryView,
)
    requires
        refusal(container, group, key) is None,
    ensures
        refusal(Some(with_entry(container, group, key, entry)), group, key) == Some(
            AddErrorView::DuplicateKey(key),
        ),
{
    let single = seq![(key, entry)];
    assert(single[0].0 == key);
    match container {
        None => match group {
            Some(name) => {
                let groups = seq![(name, single)];
                assert(is_first_at(groups, name, 0));
                lemma_first_unique(groups, name, 0);
            },
            None => {},
        },
        Some(GroupingView::Singular(entries)) => {
            let longer = entries.push((key, entry));
            assert(longer[entries.len() as int].0 == key);
        },
        Some(GroupingView::Grouped(groups)) => {
            let name = group->0;
            if contains_key(groups, name) {
                lemma_first_exists(groups, name);
                let i = position(groups, name);
                let longer = groups[i].1.push((key, entry));
                let changed = groups.update(i, (name, longer));
                assert(is_first_at(changed, name, i)) by {
                    assert forall|j: int| 0 <= j < i implies (#[trigger] changed[j]).0 != name by {
                        assert(groups[j].0 != name);
                    }
                }
                lemma_first_unique(changed, name, i);
                assert(longer[groups[i].1.len() as int].0 == key);
            } else {
                let changed = groups.push((name, single));
                let i = groups.len() as int;
                assert(is_first_at(changed, name, i)) by {
                    assert forall|j: int| 0 <= j < i implies (#[trigger] changed[j]).0 != name by {
                        assert(groups[j].0 != name);
                    }
                }
                lemma_first_unique(changed, name, i);
            }
        },
        Some(GroupingView::Invalid) => {},
    }
}

/// An entry can be added under a key once: when it was added, the same key
/// is refused as a duplicate for the same provider and group, whatever the
/// document then holds.
pub proof fn lemma_add_twice_refused(
    model: ManifestView,
    tree: TreeView,
    later: TreeView,
    provider: Seq<char>,
    requested: Option<Seq<char>>,
    key: Seq<char>,
    entry: EntryView,
)
    requires
        add_fault(model, tree, provider, requested, key) is None,
    ensures
        add_fault(
            manifest_with(model, provider, requested, key, entry),
            later,
            provider,
            requested,
            key,
        ) == Some(AddErrorView::DuplicateKey(key)),
{
    lemma_section_after_add(model, provider, requested, key, entry);
    lemma_added_key_taken(
        container_of(model, provider),
        group_for(model, provider, requested),
        key,
        entry,
    );
}

/// Whoever asks for a group where the dependencies are listed directly is
/// refused, whatever the key.
pub proof fn lemma_group_into_list_refused(
    model: ManifestView,
    tree: TreeView,
    provider: Seq<char>,
    requested: Option<Seq<char>>,
    key: Seq<char>,
)
    requires
        container_of(model, provider) matches Some(GroupingView::Singular(_)),
        requested is Some,
    ensures
        add_fault(model, tree, provider, requested, key) == Some(AddErrorView::GroupedIntoSingular),
{
}

/// Where the dependencies are grouped and neither the request nor a default
/// names a group, the entry is refused, whatever the key.
pub proof fn lemma_no_group_into_groups_refused(
    model: ManifestView,
    tree: TreeView,
    provider: Seq<char>,
    requested: Option<Seq<char>>,
    key: Seq<char>,
)
    requires
        container_of(model, provider) matches Some(GroupingView::Grouped(_)),
        group_for(model, provider, requested) is None,
    ensures
        add_fault(model, tree, provider, requested, key) == Some(
            AddErrorView::MissingGroupForGroupedContainer,
        ),
{
}

/// Dependencies of no known shape take nothing.
pub proof fn lemma_corrupt_refused(
    model: ManifestView,
    tree: TreeView,
    provider: Seq<char>,
    requested: Option<Seq<char>>,
    key: Seq<char>,
)
    requires
        container_of(model, provider) == Some(GroupingView::Invalid),
    ensures
        add_fault(model, tree, provider, requested, key) == Some(AddErrorView::CorruptContainer),
{
}

/// Adding an entry keeps the names of the providers, the names of the
/// groups and the keys distinct.
pub proof fn lemma_add_keeps_wf(
    model: ManifestView,
    provider: Seq<char>,
    requested: Option<Seq<char>>,
    key: Seq<char>,
    entry: EntryView,
)
    requires
        manifest_wf(model),
        refusal(container_of(model, provider), group_for(model, provider, requested), key) is None,
    ensures
        manifest_wf(manifest_with(model, provider, requested, key, entry)),
{
    let after = manifest_with(model, provider, requested, key, entry);
    let container = container_of(model, provider);
    let group = group_for(model, provider, requested);
    let grown = with_entry(container, group, key, entry);
    if contains_key(model.providers, provider) {
        lemma_first_exists(model.providers, provider);
        let i = position(model.providers, provider);
        assert(container matches Some(grouping) ==> grouping_wf(grouping)) by {
            assert(container == model.providers[i].1.dependencies);
        }
        lemma_with_entry_wf(container, group, key, entry);
        lemma_update_distinct(model.providers, i, after.providers[i].1);
        assert forall|j: int| 0 <= j < after.providers.len() implies ((
        #[trigger] after.providers[j]).1.dependencies matches Some(grouping) ==> grouping_wf(
            grouping,
        )) by {
            if j != i {
                assert(after.providers[j] == model.providers[j]);
            }
        }
    } else {
        lemma_with_entry_wf(container, group, key, entry);
        let section = ProviderView { dependencies: Some(grown), ..empty_section() };
        lemma_push_distinct(model.providers, provider, section);
        assert forall|j: int| 0 <= j < after.providers.len() implies ((
        #[trigger] after.providers[j]).1.dependencies matches Some(grouping) ==> grouping_wf(
            grouping,
        )) by {
            if j < model.providers.len() {
                assert(after.providers[j] == model.providers[j]);
            }
        }
    }
}

/// A list or group is without fault exactly where each of its entries is a
/// dependency.
pub proof fn lemma_entries_without_fault(entries: EntriesView)
    ensures
        entries_fault(entries) is None <==> forall|j: int|
            0 <= j < entries.len() ==> !((#[trigger] entries[j]).1 is Invalid),
{
    lemma_first_none_iff(entries, is_invalid());
    if entries_fault(entries) is None {
        assert forall|j: int| 0 <= j < entries.len() implies !((#[trigger] entries[j]).1 is Invalid) by {
            assert(!is_invalid()(entries[j]));
        }
    }
    if forall|j: int| 0 <= j < entries.len() ==> !((#[trigger] entries[j]).1 is Invalid) {
        assert forall|j: int| 0 <= j < entries.len() implies !is_invalid()(#[trigger] entries[j]) by {
            assert(!(entries[j].1 is Invalid));
        }
    }
}

/// Groups are without fault exactly where each of them is.
pub proof fn lemma_groups_without_fault(groups: GroupsView)
    ensures
        groups_fault(groups) is None <==> forall|j: int|
            0 <= j < groups.len() ==> entries_fault((#[trigger] groups[j]).1) is None,
{
    lemma_first_none_iff(groups, is_faulty_group());
    if groups_fault(groups) is None {
        assert forall|j: int| 0 <= j < groups.len() implies entries_fault(
            (#[trigger] groups[j]).1,
        ) is None by {
            assert(!is_faulty_group()(groups[j]));
        }
    }
    if forall|j: int| 0 <= j < groups.len() ==> entries_fault((#[trigger] groups[j]).1) is None {
        assert forall|j: int| 0 <= j < groups.len() implies !is_faulty_group()(#[trigger] groups[j]) by {
            assert(entries_fault(groups[j].1) is None);
        }
    }
}

/// A manifest is without fault exactly where the dependencies of each
/// provider are.
pub proof fn lemma_manifest_without_fault(providers: ProvidersView)
    ensures
        manifest_fault(providers) is None <==> forall|j: int|
            0 <= j < providers.len() ==> grouping_fault((#[trigger] providers[j]).1.dependencies) is None,
{
    lemma_first_none_iff(providers, is_faulty_provider());
    if manifest_fault(providers) is None {
        assert forall|j: int| 0 <= j < providers.len() implies grouping_fault(
            (#[trigger] providers[j]).1.dependencies,
        ) is None by {
            assert(!is_faulty_provider()(providers[j]));
        }
    }
    if forall|j: int|
        0 <= j < providers.len() ==> grouping_fault((#[trigger] providers[j]).1.dependencies) is None {
        assert forall|j: int| 0 <= j < providers.len() implies !is_faulty_provider()(
            #[trigger] providers[j],
        ) by {
            assert(grouping_fault(providers[j].1.dependencies) is None);
        }
    }
}

/// Dependencies without fault stay so when a dependency is added to them.
pub proof fn lemma_with_entry_without_fault(
    container: Option<GroupingView>,
    group: Option<Seq<char>>,
    key: Seq<char>,
    entry: EntryView,
)
    requires
        grouping_fault(container) is None,
        !(entry is Invalid),
        refusal(container, group, key) is None,
    ensures
        grouping_fault(Some(with_entry(container, group, key, entry))) is None,
{
    let single = seq![(key, entry)];
    lemma_entries_without_fault(single);
    match container {
        None => match group {
            Some(name) => {
                lemma_groups_without_fault(seq![(name, single)]);
            },
            None => {},
        },
        Some(GroupingView::Singular(entries)) => {
            lemma_entries_without_fault(entries);
            lemma_entries_without_fault(entries.push((key, entry)));
        },
        Some(GroupingView::Grouped(groups)) => {
            let name = group->0;
            lemma_groups_without_fault(groups);
            if contains_key(groups, name) {
                lemma_first_exists(groups, name);
                let i = position(groups, name);
                let longer = groups[i].1.push((key, entry));
                lemma_entries_without_fault(groups[i].1);
                lemma_entries_without_fault(longer);
                let changed = groups.update(i, (name, longer));
                lemma_groups_without_fault(changed);
                assert forall|j: int| 0 <= j < changed.len() implies entries_fault(
                    (#[trigger] changed[j]).1,
                ) is None by {
                    if j != i {
                        assert(changed[j] == groups[j]);
                    }
                }
            } else {
                let changed = groups.push((name, single));
                lemma_groups_without_fault(changed);
                assert forall|j: int| 0 <= j < changed.len() implies entries_fault(
                    (#[trigger] changed[j]).1,
                ) is None by {
                    if j < groups.len() {
                        assert(changed[j] == groups[j]);
                    }
                }
            }
        },
        Some(GroupingView::Invalid) => {},
    }
}

/// A manifest in which every entry is a dependency stays so when a
/// dependency is added to it.
pub proof fn lemma_add_keeps_valid(
    model: ManifestView,
    provider: Seq<char>,
    requested: Option<Seq<char>>,
    key: Seq<char>,
    entry: EntryView,
)
    requires
        manifest_fault(model.providers) is None,
        !(entry is Invalid),
        refusal(container_of(model, provider), group_for(model, provider, requested), key) is None,
    ensures
        manifest_fault(manifest_with(model, provider, requested, key, entry).providers) is None,
{
    let after = manifest_with(model, provider, requested, key, entry);
    let container = container_of(model, provider);
    let group = group_for(model, provider, requested);
    lemma_manifest_without_fault(model.providers);
    lemma_manifest_without_fault(after.providers);
    if contains_key(model.providers, provider) {
        lemma_first_exists(model.providers, provider);
        let i = position(model.providers, provider);
        assert(grouping_fault(model.providers[i].1.dependencies) is None);
        lemma_with_entry_without_fault(container, group, key, entry);
        assert forall|j: int| 0 <= j < after.providers.len() implies grouping_fault(
            (#[trigger] after.providers[j]).1.dependencies,
        ) is None by {
            if j != i {
                assert(after.providers[j] == model.providers[j]);
            }
        }
    } else {
        lemma_with_entry_without_fault(container, group, key, entry);
        assert forall|j: int| 0 <= j < after.providers.len() implies grouping_fault(
            (#[trigger] after.providers[j]).1.dependencies,
        ) is None by {
            if j < model.providers.len() {
                assert(after.providers[j] == model.providers[j]);
            }
        }
    }
}

} // verus!
