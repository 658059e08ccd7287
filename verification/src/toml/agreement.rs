use vstd::prelude::*;
use crate::toml::add::add_fault;
use crate::toml::add::container_of;
use crate::toml::add::empty_section;
use crate::toml::add::group_for;
use crate::toml::add::key_path;
use crate::toml::add::manifest_with;
use crate::toml::add::section_of;
use crate::toml::add::writable;
use crate::toml::document::document_tree;
use crate::toml::entry::entry_of;
use crate::toml::entry::EntryView;
use crate::toml::grouping::entries_in;
use crate::toml::grouping::grouping_of;
use crate::toml::grouping::groups_in;
use crate::toml::grouping::is_group;
use crate::toml::grouping::refusal;
use crate::toml::grouping::with_entry;
use crate::toml::grouping::EntriesView;
use crate::toml::grouping::GroupingView;
use crate::toml::keyed::contains_key;
use crate::toml::keyed::is_first_at;
use crate::toml::keyed::lemma_first_exists;
use crate::toml::keyed::lemma_first_unique;
use crate::toml::keyed::lemma_push_lookup;
use crate::toml::keyed::lemma_update_lookup;
use crate::toml::keyed::position;
use crate::toml::keyed::value_at;
use crate::toml::laws::lemma_section_after_add;
use crate::toml::load::is_reserved;
use crate::toml::load::manifest_of;
use crate::toml::load::owner_for;
use crate::toml::load::section_fault;
use crate::toml::load::section_in;
use crate::toml::load::sections_in;
use crate::toml::manifest::manifest_wf;
use crate::toml::manifest::ManifestView;
use crate::toml::manifest::ProviderView;
use crate::toml::manifest::SinkTOML;
use crate::toml::tree::child;
use crate::toml::tree::entries_of;
use crate::toml::tree::written;
use crate::toml::tree::TreeView;

verus! {

/// Whether a list or group holds what a table of the document holds: under
/// each key of the list stands a value that reads as the entry under that
/// key, and under every other key stands nothing.
pub open spec fn entries_agree(
    entries: EntriesView,
    node: TreeView,
    default_owner: Option<Seq<char>>,
) -> bool {
    forall|key: Seq<char>|
        #![trigger child(node, key)]
        if contains_key(entries, key) {
            entry_of(key, child(node, key), default_owner) == value_at(entries, key)
        } else {
            child(node, key) is Absent
        }
}

/// Whether the dependencies of a provider hold what the node under
/// `dependencies` holds: neither holds anything; or the node is a table
/// and the entries of the list agree with it; or the node is a table,
/// under the name of each group stands a table that the group agrees
/// with, and nothing stands under any other name. Dependencies of no known
/// shape agree with anything.
pub open spec fn grouping_agrees(
    container: Option<GroupingView>,
    node: TreeView,
    default_owner: Option<Seq<char>>,
) -> bool {
    match container {
        None => node is Absent,
        Some(GroupingView::Singular(entries)) => node is Table && entries_agree(
            entries,
            node,
            default_owner,
        ),
        Some(GroupingView::Grouped(groups)) => node is Table && forall|name: Seq<char>|
            #![trigger child(node, name)]
            if contains_key(groups, name) {
                child(node, name) is Table && entries_agree(
                    value_at(groups, name),
                    child(node, name),
                    default_owner,
                )
            } else {
                child(node, name) is Absent
            },
        Some(GroupingView::Invalid) => true,
    }
}

/// The two representations of a manifest agree: the document is a table;
/// under the name of each provider stands a table, and the dependencies
/// of the provider hold what that table holds for them, entry by entry;
/// and the document holds nothing for a provider that the manifest does
/// not have. So the document has room wherever the manifest has a
/// section, a list or a group.
pub open spec fn agrees(model: ManifestView, tree: TreeView) -> bool {
    &&& tree is Table
    &&& forall|provider: Seq<char>|
        #![trigger child(tree, provider)]
        match section_of(model, provider) {
            Some(section) => child(tree, provider) is Table && grouping_agrees(
                section.dependencies,
                child(child(tree, provider), "dependencies"@),
                owner_for(section.default_owner, model.default_owner),
            ),
            None => is_reserved(provider) || child(tree, provider) is Absent,
        }
}

/// The owner that an entry of a provider defaults to in this manifest.
pub open spec fn owner_of(model: ManifestView, provider: Seq<char>) -> Option<Seq<char>> {
    owner_for(
        match section_of(model, provider) {
            Some(section) => section.default_owner,
            None => None,
        },
        model.default_owner,
    )
}

impl SinkTOML {
    /// The manifest is well formed and its two representations agree: no
    /// name or key occurs twice where it must not, and the manifest and
    /// the document hold the same entries under the same keys.
    pub open spec fn is_consistent(&self) -> bool {
        manifest_wf(self@) && agrees(self@, document_tree(self.formatted))
    }
}

/// The entries that are read from a node agree with it.
pub proof fn lemma_entries_in_agree(node: TreeView, default_owner: Option<Seq<char>>)
    ensures
        entries_agree(entries_in(entries_of(node), default_owner), node, default_owner),
{
    let nodes = entries_of(node);
    let entries = entries_in(nodes, default_owner);
    assert forall|key: Seq<char>| #![trigger child(node, key)] if contains_key(entries, key) {
        entry_of(key, child(node, key), default_owner) == value_at(entries, key)
    } else {
        child(node, key) is Absent
    } by {
        if contains_key(entries, key) {
            lemma_first_exists(entries, key);
            let i = position(entries, key);
            assert(is_first_at(nodes, key, i)) by {
                assert(entries[i].0 == nodes[i].0);
                assert forall|j: int| 0 <= j < i implies (#[trigger] nodes[j]).0 != key by {
                    assert(entries[j].0 == nodes[j].0);
                }
            }
            lemma_first_unique(nodes, key, i);
        } else if contains_key(nodes, key) {
            let i = choose|i: int| 0 <= i < nodes.len() && (#[trigger] nodes[i]).0 == key;
            assert(entries[i].0 == key);
        }
    }
}

/// The dependencies that are read from a node agree with it.
pub proof fn lemma_grouping_of_agrees(node: TreeView, default_owner: Option<Seq<char>>)
    ensures
        grouping_agrees(grouping_of(node, default_owner), node, default_owner),
{
    match grouping_of(node, default_owner) {
        Some(GroupingView::Singular(_)) => {
            lemma_entries_in_agree(node, default_owner);
        },
        Some(GroupingView::Grouped(groups)) => {
            let nodes = entries_of(node);
            assert(groups == groups_in(nodes, default_owner));
            assert forall|name: Seq<char>| #![trigger child(node, name)] if contains_key(groups, name) {
                child(node, name) is Table && entries_agree(
                    value_at(groups, name),
                    child(node, name),
                    default_owner,
                )
            } else {
                child(node, name) is Absent
            } by {
                if contains_key(groups, name) {
                    lemma_first_exists(groups, name);
                    let i = position(groups, name);
                    assert(is_first_at(nodes, name, i)) by {
                        assert(groups[i].0 == nodes[i].0);
                        assert forall|j: int| 0 <= j < i implies (#[trigger] nodes[j]).0 != name by {
                            assert(groups[j].0 == nodes[j].0);
                        }
                    }
                    lemma_first_unique(nodes, name, i);
                    assert(is_group(nodes[i].1));
                    lemma_entries_in_agree(nodes[i].1, default_owner);
                } else if contains_key(nodes, name) {
                    let i = choose|i: int| 0 <= i < nodes.len() && (#[trigger] nodes[i]).0 == name;
                    assert(groups[i].0 == name);
                }
            }
        },
        _ => {},
    }
}

/// The sections that are read from the keys of the root are the sections
/// of the keys that are no settings of the manifest, each read from what
/// stands under its key.
pub proof fn lemma_sections_in_lookup(
    nodes: Seq<(Seq<char>, TreeView)>,
    manifest_owner: Option<Seq<char>>,
    name: Seq<char>,
)
    requires
        sections_in(nodes, manifest_owner) is Ok,
    ensures
        ({
            let sections = sections_in(nodes, manifest_owner)->Ok_0;
            if contains_key(sections, name) {
                &&& !is_reserved(name)
                &&& contains_key(nodes, name)
                &&& value_at(nodes, name) is Table
                &&& value_at(sections, name) == section_in(value_at(nodes, name), manifest_owner)
            } else {
                is_reserved(name) || !contains_key(nodes, name)
            }
        }),
    decreases nodes.len(),
{
    if nodes.len() > 0 {
        let earlier = nodes.drop_last();
        let last = nodes.last();
        assert(earlier.push(last) =~= nodes);
        lemma_sections_in_lookup(earlier, manifest_owner, name);
        let before = sections_in(earlier, manifest_owner)->Ok_0;
        lemma_push_lookup(earlier, last.0, last.1, name);
        if !is_reserved(last.0) {
            assert(section_fault(last.0, last.1) is None);
            lemma_push_lookup(before, last.0, section_in(last.1, manifest_owner), name);
        }
    } else {
        assert(!contains_key(nodes, name));
    }
}

/// What is read from a document agrees with it.
pub proof fn lemma_manifest_of_agrees(tree: TreeView)
    requires
        manifest_of(tree) is Ok,
    ensures
        agrees(manifest_of(tree)->Ok_0, tree),
{
    let model = manifest_of(tree)->Ok_0;
    let nodes = entries_of(tree);
    assert forall|provider: Seq<char>| #![trigger child(tree, provider)] match section_of(
        model,
        provider,
    ) {
        Some(section) => child(tree, provider) is Table && grouping_agrees(
            section.dependencies,
            child(child(tree, provider), "dependencies"@),
            owner_for(section.default_owner, model.default_owner),
        ),
        None => is_reserved(provider) || child(tree, provider) is Absent,
    } by {
        lemma_sections_in_lookup(nodes, model.default_owner, provider);
        if contains_key(model.providers, provider) {
            let section = value_at(model.providers, provider);
            lemma_grouping_of_agrees(
                child(child(tree, provider), "dependencies"@),
                owner_for(section.default_owner, model.default_owner),
            );
        }
    }
}

/// What a write at the keys of an entry does to the tables on the way: each
/// of them holds under every other key what it held, and the last of them
/// holds the value under the key of the entry.
proof fn lemma_written_key_path(
    tree: TreeView,
    later: TreeView,
    provider: Seq<char>,
    group: Option<Seq<char>>,
    key: Seq<char>,
    value: TreeView,
)
    requires
        written(tree, key_path(provider, group, key), value, later),
    ensures
        ({
            let section = child(tree, provider);
            let section_later = child(later, provider);
            let node = child(section, "dependencies"@);
            let node_later = child(section_later, "dependencies"@);
            &&& later is Table
            &&& section_later is Table
            &&& node_later is Table
            &&& group matches Some(name) ==> child(node_later, name) is Table
            &&& forall|other: Seq<char>|
                other != provider ==> #[trigger] child(later, other) == child(tree, other)
            &&& forall|other: Seq<char>|
                other != "dependencies"@ ==> #[trigger] child(section_later, other) == child(
                    section,
                    other,
                )
            &&& match group {
                Some(name) => {
                    &&& forall|other: Seq<char>|
                        other != name ==> #[trigger] child(node_later, other) == child(node, other)
                    &&& forall|other: Seq<char>|
                        other != key ==> #[trigger] child(child(node_later, name), other) == child(
                            child(node, name),
                            other,
                        )
                    &&& child(child(node_later, name), key) == value
                },
                None => {
                    &&& forall|other: Seq<char>|
                        other != key ==> #[trigger] child(node_later, other) == child(node, other)
                    &&& child(node_later, key) == value
                },
            }
        }),
{
    reveal_with_fuel(written, 5);
    let path = key_path(provider, group, key);
    assert(path.skip(1).skip(1) =~= path.skip(2));
    assert(path.skip(2).skip(1) =~= path.skip(3));
    if group is Some {
        assert(path.skip(3).skip(1) =~= path.skip(4));
    }
}

/// Where the two representations agree, the document has room for every
/// entry that the manifest does not refuse: such an entry is added. The
/// provider must have a section already or not be named like a setting of
/// the manifest.
pub proof fn lemma_agreeing_document_has_room(
    model: ManifestView,
    tree: TreeView,
    provider: Seq<char>,
    requested: Option<Seq<char>>,
    key: Seq<char>,
)
    requires
        agrees(model, tree),
        section_of(model, provider) is Some || !is_reserved(provider),
        refusal(container_of(model, provider), group_for(model, provider, requested), key) is None,
    ensures
        writable(tree, key_path(provider, group_for(model, provider, requested), key)),
        add_fault(model, tree, provider, requested, key) is None,
{
    reveal_with_fuel(writable, 5);
    let group = group_for(model, provider, requested);
    let path = key_path(provider, group, key);
    let section = child(tree, provider);
    let node = child(section, "dependencies"@);
    assert(path.skip(1).skip(1) =~= path.skip(2));
    assert(path.skip(2).skip(1) =~= path.skip(3));
    if group is Some {
        assert(path.skip(3).skip(1) =~= path.skip(4));
        assert(child(node, group->0) == child(node, group->0));
    }
    assert(child(tree, provider) == section);
}

/// An entry is added to an empty list under any key, where no group
/// resolves and the two representations agree; the list then holds that
/// entry and nothing else.
pub proof fn lemma_add_into_empty_list(
    model: ManifestView,
    tree: TreeView,
    provider: Seq<char>,
    requested: Option<Seq<char>>,
    key: Seq<char>,
    entry: EntryView,
)
    requires
        agrees(model, tree),
        container_of(model, provider) == Some(GroupingView::Singular(Seq::empty())),
        group_for(model, provider, requested) is None,
    ensures
        add_fault(model, tree, provider, requested, key) is None,
        container_of(manifest_with(model, provider, requested, key, entry), provider) == Some(
            GroupingView::Singular(seq![(key, entry)]),
        ),
{
    lemma_agreeing_document_has_room(model, tree, provider, requested, key);
    lemma_section_after_add(model, provider, requested, key, entry);
    assert(Seq::<(Seq<char>, EntryView)>::empty().push((key, entry)) =~= seq![(key, entry)]);
}

/// A list or group that agrees with a table still does when an entry was
/// added to it under a key that it did not hold and a value that reads as
/// the entry was put under that key in the table.
proof fn lemma_entries_agree_after_add(
    entries: EntriesView,
    node: TreeView,
    later: TreeView,
    key: Seq<char>,
    entry: EntryView,
    default_owner: Option<Seq<char>>,
)
    requires
        entries_agree(entries, node, default_owner),
        !contains_key(entries, key),
        forall|other: Seq<char>| other != key ==> #[trigger] child(later, other) == child(node, other),
        entry_of(key, child(later, key), default_owner) == entry,
    ensures
        entries_agree(entries.push((key, entry)), later, default_owner),
{
    let longer = entries.push((key, entry));
    assert forall|other: Seq<char>| #![trigger child(later, other)] if contains_key(longer, other) {
        entry_of(other, child(later, other), default_owner) == value_at(longer, other)
    } else {
        child(later, other) is Absent
    } by {
        lemma_push_lookup(entries, key, entry, other);
        if other != key {
            assert(child(later, other) == child(node, other));
        }
    }
}

/// A table under which nothing stands agrees with a list that holds
/// nothing.
proof fn lemma_nothing_agrees(node: TreeView, default_owner: Option<Seq<char>>)
    requires
        node is Absent,
    ensures
        entries_agree(Seq::empty(), node, default_owner),
{
    assert forall|key: Seq<char>| #![trigger child(node, key)] child(node, key) is Absent by {}
}

/// Adding an entry keeps the two representations in agreement, provided
/// that the value that goes into the document reads as the entry that
/// goes into the manifest, and that the provider is not named like a
/// setting of the manifest.
pub proof fn lemma_add_keeps_agreement(
    model: ManifestView,
    tree: TreeView,
    later: TreeView,
    provider: Seq<char>,
    requested: Option<Seq<char>>,
    key: Seq<char>,
    entry: EntryView,
    value: TreeView,
)
    requires
        agrees(model, tree),
        !is_reserved(provider),
        refusal(container_of(model, provider), group_for(model, provider, requested), key) is None,
        written(tree, key_path(provider, group_for(model, provider, requested), key), value, later),
        entry_of(key, value, owner_of(model, provider)) == entry,
    ensures
        agrees(manifest_with(model, provider, requested, key, entry), later),
{
    let after = manifest_with(model, provider, requested, key, entry);
    let group = group_for(model, provider, requested);
    let container = container_of(model, provider);
    let owner = owner_of(model, provider);
    let node = child(child(tree, provider), "dependencies"@);
    let node_later = child(child(later, provider), "dependencies"@);
    let grown = with_entry(container, group, key, entry);
    lemma_written_key_path(tree, later, provider, group, key, value);
    assert(grouping_agrees(container, node, owner)) by {
        assert(child(tree, provider) == child(tree, provider));
        if section_of(model, provider) is None {
            assert(child(tree, provider) is Absent);
        }
    }
    assert(grouping_agrees(Some(grown), node_later, owner)) by {
        match container {
            None => {
                lemma_nothing_agrees(node, owner);
                match group {
                    Some(name) => {
                        let entries = seq![(key, entry)];
                        let groups = seq![(name, entries)];
                        lemma_nothing_agrees(child(node, name), owner);
                        lemma_entries_agree_after_add(
                            Seq::empty(),
                            child(node, name),
                            child(node_later, name),
                            key,
                            entry,
                            owner,
                        );
                        assert(Seq::<(Seq<char>, EntryView)>::empty().push((key, entry)) =~= entries);
                        assert(Seq::<(Seq<char>, EntriesView)>::empty().push((name, entries))
                            =~= groups);
                        assert forall|other: Seq<char>|
                            #![trigger child(node_later, other)]
                            if contains_key(groups, other) {
                                child(node_later, other) is Table && entries_agree(
                                    value_at(groups, other),
                                    child(node_later, other),
                                    owner,
                                )
                            } else {
                                child(node_later, other) is Absent
                            } by {
                            lemma_push_lookup(Seq::empty(), name, entries, other);
                            if other != name {
                                assert(child(node_later, other) == child(node, other));
                            }
                        }
                    },
                    None => {
                        lemma_entries_agree_after_add(
                            Seq::empty(),
                            node,
                            node_later,
                            key,
                            entry,
                            owner,
                        );
                        assert(Seq::<(Seq<char>, EntryView)>::empty().push((key, entry)) =~= seq![
                            (key, entry),
                        ]);
                    },
                }
            },
            Some(GroupingView::Singular(entries)) => {
                lemma_entries_agree_after_add(entries, node, node_later, key, entry, owner);
            },
            Some(GroupingView::Grouped(groups)) => {
                let name = group->0;
                assert(child(node, name) == child(node, name));
                if contains_key(groups, name) {
                    let old = value_at(groups, name);
                    let changed = groups.update(position(groups, name), (name, old.push((key, entry))));
                    lemma_entries_agree_after_add(
                        old,
                        child(node, name),
                        child(node_later, name),
                        key,
                        entry,
                        owner,
                    );
                    assert forall|other: Seq<char>|
                        #![trigger child(node_later, other)]
                        if contains_key(changed, other) {
                            child(node_later, other) is Table && entries_agree(
                                value_at(changed, other),
                                child(node_later, other),
                                owner,
                            )
                        } else {
                            child(node_later, other) is Absent
                        } by {
                        lemma_update_lookup(groups, name, old.push((key, entry)), other);
                        if other != name {
                            assert(child(node_later, other) == child(node, other));
                        }
                    }
                } else {
                    let entries = seq![(key, entry)];
                    let changed = groups.push((name, entries));
                    lemma_nothing_agrees(child(node, name), owner);
                    lemma_entries_agree_after_add(
                        Seq::empty(),
                        child(node, name),
                        child(node_later, name),
                        key,
                        entry,
                        owner,
                    );
                    assert(Seq::<(Seq<char>, EntryView)>::empty().push((key, entry)) =~= entries);
                    assert forall|other: Seq<char>|
                        #![trigger child(node_later, other)]
                        if contains_key(changed, other) {
                            child(node_later, other) is Table && entries_agree(
                                value_at(changed, other),
                                child(node_later, other),
                                owner,
                            )
                        } else {
                            child(node_later, other) is Absent
                        } by {
                        lemma_push_lookup(groups, name, entries, other);
                        if other != name {
                            assert(child(node_later, other) == child(node, other));
                        }
                    }
                }
            },
            Some(GroupingView::Invalid) => {},
        }
    }
    assert forall|other: Seq<char>| #![trigger child(later, other)] match section_of(after, other) {
        Some(section) => child(later, other) is Table && grouping_agrees(
            section.dependencies,
            child(child(later, other), "dependencies"@),
            owner_for(section.default_owner, after.default_owner),
        ),
        None => is_reserved(other) || child(later, other) is Absent,
    } by {
        let section = match section_of(model, provider) {
            Some(section) => section,
            None => empty_section(),
        };
        let section = ProviderView { dependencies: Some(grown), ..section };
        if contains_key(model.providers, provider) {
            lemma_update_lookup(model.providers, provider, section, other);
        } else {
            lemma_push_lookup(model.providers, provider, section, other);
        }
        if other != provider {
            assert(child(later, other) == child(tree, other));
            assert(section_of(after, other) == section_of(model, other));
        }
    }
}

} // verus!
