use vstd::prelude::*;
use vstd::string::StringExecFns;
use toml_edit::Item;
use crate::errors::AddError;
use crate::errors::AddErrorView;
use crate::toml::document::item_tree;
use crate::toml::document::table_get;
use crate::toml::document::table_keys;
use crate::toml::entry::entry_of;
use crate::toml::entry::DependencyType;
use crate::toml::entry::EntryView;
use crate::toml::entry::Malformation;
use crate::toml::tree::child;
use crate::toml::tree::entries_of;
use crate::toml::tree::lemma_child_at;
use crate::toml::tree::TreeView;
use crate::toml::keyed::contains_key;
use crate::toml::keyed::distinct;
use crate::toml::keyed::find;
use crate::toml::keyed::lemma_first_exists;
use crate::toml::keyed::lemma_push_distinct;
use crate::toml::keyed::lemma_update_distinct;
use crate::toml::keyed::position;

verus! {

/// The entries of one provider, or of one group of it: each under its key,
/// in the order of the manifest.
pub type Entries = Vec<(String, DependencyType)>;

/// The groups of one provider: each with its name and its entries, in the
/// order of the manifest.
pub type Groups = Vec<(String, Entries)>;

/// Mathematical model of [`Entries`].
pub type EntriesView = Seq<(Seq<char>, EntryView)>;

/// Mathematical model of [`Groups`].
pub type GroupsView = Seq<(Seq<char>, EntriesView)>;

/// The dependencies of one provider. They are either all listed directly
/// or all listed under named groups.
#[derive(Debug)]
pub enum Grouping {
    /// The entries, directly.
    Singular(Entries),
    /// The groups, each with its entries.
    Grouped(Groups),
    /// Of neither shape.
    Invalid,
}

/// Mathematical model of a [`Grouping`].
pub enum GroupingView {
    Singular(EntriesView),
    Grouped(GroupsView),
    Invalid,
}

impl View for Grouping {
    type V = GroupingView;

    open spec fn view(&self) -> GroupingView {
        match self {
            Grouping::Singular(entries) => GroupingView::Singular(entries.deep_view()),
            Grouping::Grouped(groups) => GroupingView::Grouped(groups.deep_view()),
            Grouping::Invalid => GroupingView::Invalid,
        }
    }
}

impl DeepView for Grouping {
    type V = GroupingView;

    open spec fn deep_view(&self) -> GroupingView {
        self@
    }
}

/// No key occurs twice among the entries, no name twice among the groups,
/// and no key twice within a group.
pub open spec fn grouping_wf(grouping: GroupingView) -> bool {
    match grouping {
        GroupingView::Singular(entries) => distinct(entries),
        GroupingView::Grouped(groups) => distinct(groups) && forall|i: int|
            0 <= i < groups.len() ==> distinct((#[trigger] groups[i]).1),
        GroupingView::Invalid => true,
    }
}

/// Whether a node under a provider's dependencies is a group of entries
/// rather than an entry: a table that holds none of the fields of an
/// entry.
pub open spec fn is_group(node: TreeView) -> bool {
    &&& node is Table
    &&& child(node, "version"@) is Absent
    &&& child(node, "destination"@) is Absent
    &&& child(node, "gitignore"@) is Absent
    &&& child(node, "repository"@) is Absent
    &&& child(node, "origin"@) is Absent
}

/// The entries that the keys of a table stand for, in their order.
pub open spec fn entries_in(
    nodes: Seq<(Seq<char>, TreeView)>,
    default_owner: Option<Seq<char>>,
) -> EntriesView {
    Seq::new(nodes.len(), |i: int| (nodes[i].0, entry_of(nodes[i].0, nodes[i].1, default_owner)))
}

/// The groups that the keys of a table stand for, in their order.
pub open spec fn groups_in(
    nodes: Seq<(Seq<char>, TreeView)>,
    default_owner: Option<Seq<char>>,
) -> GroupsView {
    Seq::new(nodes.len(), |i: int| (nodes[i].0, entries_in(entries_of(nodes[i].1), default_owner)))
}

/// The dependencies that the node under `dependencies` stands for: none
/// where nothing stands there; entries listed directly where the node is a
/// table that holds no group, an empty one too; groups where it is a table
/// that holds groups only; of no known shape otherwise.
pub open spec fn grouping_of(node: TreeView, default_owner: Option<Seq<char>>) -> Option<
    GroupingView,
> {
    match node {
        TreeView::Absent => None,
        TreeView::Table(_, nodes) => Some(
            if forall|i: int| 0 <= i < nodes.len() ==> !is_group((#[trigger] nodes[i]).1) {
                GroupingView::Singular(entries_in(nodes, default_owner))
            } else if forall|i: int| 0 <= i < nodes.len() ==> is_group((#[trigger] nodes[i]).1) {
                GroupingView::Grouped(groups_in(nodes, default_owner))
            } else {
                GroupingView::Invalid
            },
        ),
        _ => Some(GroupingView::Invalid),
    }
}

/// The entries of a table stand under its keys: where no key occurs twice
/// in the table, none does among the entries.
pub proof fn lemma_entries_in_distinct(
    nodes: Seq<(Seq<char>, TreeView)>,
    default_owner: Option<Seq<char>>,
)
    requires
        distinct(nodes),
    ensures
        distinct(entries_in(nodes, default_owner)),
        distinct(groups_in(nodes, default_owner)),
{
    let entries = entries_in(nodes, default_owner);
    assert forall|i: int, j: int| 0 <= i < j < entries.len() implies (#[trigger] entries[i]).0 != (
    #[trigger] entries[j]).0 by {
        assert(nodes[i].0 != nodes[j].0);
    }
    let groups = groups_in(nodes, default_owner);
    assert forall|i: int, j: int| 0 <= i < j < groups.len() implies (#[trigger] groups[i]).0 != (
    #[trigger] groups[j]).0 by {
        assert(nodes[i].0 != nodes[j].0);
    }
}

/// `keys` are the keys of the table `nodes`, in order, and no key occurs
/// twice.
pub open spec fn lists(keys: Seq<String>, nodes: Seq<(Seq<char>, TreeView)>) -> bool {
    &&& keys.len() == nodes.len()
    &&& forall|i: int| 0 <= i < keys.len() ==> (#[trigger] keys[i])@ == nodes[i].0
    &&& distinct(nodes)
}

/// Whether nothing stands under a key of a table.
pub(crate) fn absent_under(item: &Item, key: &str) -> (absent: bool)
    ensures
        absent == (child(item_tree(*item), key@) is Absent),
{
    match table_get(item, key) {
        Some(node) => node.is_none(),
        None => true,
    }
}

/// Reads the entries of a table whose keys are given.
pub(crate) fn read_entries(item: &Item, keys: &Vec<String>, default_owner: &Option<String>) -> (entries:
    Entries)
    requires
        item_tree(*item) is Table,
        lists(keys@, entries_of(item_tree(*item))),
    ensures
        entries.deep_view() == entries_in(entries_of(item_tree(*item)), default_owner.deep_view()),
        distinct(entries.deep_view()),
{
    let ghost nodes = entries_of(item_tree(*item));
    proof {
        lemma_entries_in_distinct(nodes, default_owner.deep_view());
    }
    let ghost all = entries_in(nodes, default_owner.deep_view());
    let mut entries: Entries = Vec::new();
    let mut i: usize = 0;
    while i < keys.len()
        invariant
            i <= keys.len(),
            item_tree(*item) is Table,
            entries_of(item_tree(*item)) == nodes,
            lists(keys@, nodes),
            all == entries_in(nodes, default_owner.deep_view()),
            entries.deep_view() == all.take(i as int),
        decreases keys.len() - i,
    {
        let key = keys[i].clone();
        proof {
            lemma_child_at(item_tree(*item), i as int);
        }
        let entry = match table_get(item, key.as_str()) {
            Some(node) => DependencyType::read(key.as_str(), node, default_owner),
            None => DependencyType::Invalid(Malformation::Shape),
        };
        let ghost before = entries.deep_view();
        entries.push((key, entry));
        assert(entries.deep_view() =~= before.push((key@, entry@)));
        assert(all.take(i + 1) =~= all.take(i as int).push(all[i as int]));
        i = i + 1;
    }
    assert(all.take(keys.len() as int) =~= all);
    entries
}

/// Why an entry cannot be added under `key`, to `group` if one is given,
/// or `None` if it can. One may not add into a group of dependencies that
/// are listed directly, nor directly to dependencies that are grouped, nor
/// under a key that is taken where the entry would go, nor to dependencies
/// of no known shape. A provider without dependencies takes anything.
pub open spec fn refusal(
    container: Option<GroupingView>,
    group: Option<Seq<char>>,
    key: Seq<char>,
) -> Option<AddErrorView> {
    match container {
        None => None,
        Some(GroupingView::Singular(entries)) => if group is Some {
            Some(AddErrorView::GroupedIntoSingular)
        } else if contains_key(entries, key) {
            Some(AddErrorView::DuplicateKey(key))
        } else {
            None
        },
        Some(GroupingView::Grouped(groups)) => match group {
            None => Some(AddErrorView::MissingGroupForGroupedContainer),
            Some(name) => if contains_key(groups, name) && contains_key(
                groups[position(groups, name)].1,
                key,
            ) {
                Some(AddErrorView::DuplicateKey(key))
            } else {
                None
            },
        },
        Some(GroupingView::Invalid) => Some(AddErrorView::CorruptContainer),
    }
}

/// The dependencies after an entry was added that nothing refuses. A
/// provider without dependencies gets them in the shape that the entry
/// asks for: grouped if a group is given, listed directly if not. A group
/// that is not there yet is added behind the others, and the entry goes
/// behind the others of its group or list.
pub open spec fn with_entry(
    container: Option<GroupingView>,
    group: Option<Seq<char>>,
    key: Seq<char>,
    entry: EntryView,
) -> GroupingView {
    match container {
        None => match group {
            Some(name) => GroupingView::Grouped(seq![(name, seq![(key, entry)])]),
            None => GroupingView::Singular(seq![(key, entry)]),
        },
        Some(GroupingView::Singular(entries)) => GroupingView::Singular(entries.push((key, entry))),
        Some(GroupingView::Grouped(groups)) => match group {
            Some(name) => if contains_key(groups, name) {
                let i = position(groups, name);
                GroupingView::Grouped(groups.update(i, (name, groups[i].1.push((key, entry)))))
            } else {
                GroupingView::Grouped(groups.push((name, seq![(key, entry)])))
            },
            None => GroupingView::Grouped(groups),
        },
        Some(GroupingView::Invalid) => GroupingView::Invalid,
    }
}

/// Adding an entry that nothing refuses keeps keys and names distinct.
pub proof fn lemma_with_entry_wf(
    container: Option<GroupingView>,
    group: Option<Seq<char>>,
    key: Seq<char>,
    entry: EntryView,
)
    requires
        container matches Some(grouping) ==> grouping_wf(grouping),
        refusal(container, group, key) is None,
    ensures
        grouping_wf(with_entry(container, group, key, entry)),
{
    match container {
        None => {},
        Some(GroupingView::Singular(entries)) => {
            lemma_push_distinct(entries, key, entry);
        },
        Some(GroupingView::Grouped(groups)) => {
            let name = group->0;
            if contains_key(groups, name) {
                let i = position(groups, name);
                lemma_first_exists(groups, name);
                let longer = groups[i].1.push((key, entry));
                lemma_push_distinct(groups[i].1, key, entry);
                lemma_update_distinct(groups, i, longer);
                let changed = groups.update(i, (name, longer));
                assert forall|j: int| 0 <= j < changed.len() implies distinct(
                    (#[trigger] changed[j]).1,
                ) by {
                    if j != i {
                        assert(distinct(groups[j].1));
                    }
                }
            } else {
                let first = seq![(key, entry)];
                lemma_push_distinct(groups, name, first);
                let longer = groups.push((name, first));
                assert forall|j: int| 0 <= j < longer.len() implies distinct(
                    (#[trigger] longer[j]).1,
                ) by {
                    if j < groups.len() {
                        assert(distinct(groups[j].1));
                    }
                }
            }
        },
        Some(GroupingView::Invalid) => {},
    }
}

impl Grouping {
    /// Whether the item is a group of entries rather than an entry.
    pub fn is_group(item: &Item) -> (group: bool)
        ensures
            group == is_group(item_tree(*item)),
    {
        item.is_table_like() && absent_under(item, "version") && absent_under(item, "destination")
            && absent_under(item, "gitignore") && absent_under(item, "repository") && absent_under(
            item,
            "origin",
        )
    }

    /// Reads the dependencies of a provider from the item that stands
    /// under `dependencies`.
    pub fn read(item: &Item, default_owner: &Option<String>) -> (container: Option<Grouping>)
        ensures
            container.deep_view() == grouping_of(item_tree(*item), default_owner.deep_view()),
            container.deep_view() matches Some(grouping) ==> grouping_wf(grouping),
    {
        if item.is_none() {
            return None;
        }
        let keys = match table_keys(item) {
            Some(keys) => keys,
            None => {
                return Some(Grouping::Invalid);
            },
        };
        let ghost nodes = entries_of(item_tree(*item));
        let mut any_group = false;
        let mut any_entry = false;
        let mut i: usize = 0;
        while i < keys.len()
            invariant
                i <= keys.len(),
                item_tree(*item) is Table,
            entries_of(item_tree(*item)) == nodes,
                lists(keys@, nodes),
                any_group <==> exists|j: int| 0 <= j < i && is_group((#[trigger] nodes[j]).1),
                any_entry <==> exists|j: int| 0 <= j < i && !is_group((#[trigger] nodes[j]).1),
            decreases keys.len() - i,
        {
            proof {
                lemma_child_at(item_tree(*item), i as int);
            }
            let group = match table_get(item, keys[i].as_str()) {
                Some(node) => Grouping::is_group(node),
                None => false,
            };
            assert(group == is_group(nodes[i as int].1));
            if group {
                any_group = true;
            } else {
                any_entry = true;
            }
            i = i + 1;
        }
        if !any_group {
            Some(Grouping::Singular(read_entries(item, &keys, default_owner)))
        } else if !any_entry {
            let ghost all = groups_in(nodes, default_owner.deep_view());
            let mut groups: Groups = Vec::new();
            let mut i: usize = 0;
            while i < keys.len()
                invariant
                    i <= keys.len(),
                    item_tree(*item) is Table,
            entries_of(item_tree(*item)) == nodes,
                    lists(keys@, nodes),
                    all == groups_in(nodes, default_owner.deep_view()),
                    groups.deep_view() == all.take(i as int),
                    forall|j: int| 0 <= j < i ==> distinct((#[trigger] all[j]).1),
                decreases keys.len() - i,
            {
                let name = keys[i].clone();
                proof {
                    lemma_child_at(item_tree(*item), i as int);
                }
                let entries = match table_get(item, name.as_str()) {
                    Some(node) => match table_keys(node) {
                        Some(inner) => read_entries(node, &inner, default_owner),
                        None => Vec::new(),
                    },
                    None => Vec::new(),
                };
                assert(entries.deep_view() =~= all[i as int].1);
                let ghost before = groups.deep_view();
                groups.push((name, entries));
                assert(groups.deep_view() =~= before.push((name@, entries.deep_view())));
                assert(all.take(i + 1) =~= all.take(i as int).push(all[i as int]));
                i = i + 1;
            }
            assert(all.take(keys.len() as int) =~= all);
            proof {
                lemma_entries_in_distinct(nodes, default_owner.deep_view());
            }
            Some(Grouping::Grouped(groups))
        } else {
            Some(Grouping::Invalid)
        }
    }

    /// Tells why an entry cannot be added under `key`, to `group` if one is
    /// given; `None` if it can.
    pub fn refusal(container: &Option<Grouping>, group: &Option<String>, key: &str) -> (why: Option<
        AddError,
    >)
        ensures
            why.deep_view() == refusal(container.deep_view(), group.deep_view(), key@),
    {
        match container {
            None => None,
            Some(Grouping::Singular(entries)) => {
                if group.is_some() {
                    Some(AddError::GroupedIntoSingular)
                } else if find(entries, key).is_some() {
                    Some(AddError::DuplicateKey(String::from_str(key)))
                } else {
                    None
                }
            },
            Some(Grouping::Grouped(groups)) => match group {
                None => Some(AddError::MissingGroupForGroupedContainer),
                Some(name) => match find(groups, name.as_str()) {
                    Some(i) => {
                        assert(groups.deep_view()[i as int].1 == groups[i as int].1.deep_view());
                        if find(&groups[i].1, key).is_some() {
                            Some(AddError::DuplicateKey(String::from_str(key)))
                        } else {
                            None
                        }
                    },
                    None => None,
                },
            },
            Some(Grouping::Invalid) => Some(AddError::CorruptContainer),
        }
    }

    /// Adds an entry under `key`, to `group` if one is given. Either the
    /// entry is refused and nothing changes, or it stands where
    /// [`with_entry`] puts it.
    pub fn add(
        container: &mut Option<Grouping>,
        group: Option<String>,
        key: String,
        entry: DependencyType,
    ) -> (result: Result<(), AddError>)
        ensures
            match result {
                Ok(()) => refusal(old(container).deep_view(), group.deep_view(), key@) is None
                    && final(container).deep_view() == Some(
                    with_entry(old(container).deep_view(), group.deep_view(), key@, entry@),
                ),
                Err(e) => refusal(old(container).deep_view(), group.deep_view(), key@) == Some(e@)
                    && *final(container) == *old(container),
            },
    {
        if let Some(why) = Grouping::refusal(container, &group, key.as_str()) {
            return Err(why);
        }
        let ghost before = container.deep_view();
        let ghost after = with_entry(before, group.deep_view(), key@, entry@);
        match container {
            None => {
                let mut entries: Entries = Vec::new();
                entries.push((key, entry));
                match group {
                    Some(name) => {
                        let mut groups: Groups = Vec::new();
                        groups.push((name, entries));
                        assert(groups.deep_view() =~= seq![(name@, seq![(key@, entry@)])]) by {
                            assert(groups.deep_view()[0].1 =~= seq![(key@, entry@)]);
                        }
                        *container = Some(Grouping::Grouped(groups));
                    },
                    None => {
                        assert(entries.deep_view() =~= seq![(key@, entry@)]);
                        *container = Some(Grouping::Singular(entries));
                    },
                }
            },
            Some(Grouping::Singular(entries)) => {
                let ghost old_entries = entries.deep_view();
                entries.push((key, entry));
                assert(entries.deep_view() =~= old_entries.push((key@, entry@)));
            },
            Some(Grouping::Grouped(groups)) => {
                let ghost old_groups = groups.deep_view();
                match group {
                    Some(name) => match find(groups, name.as_str()) {
                        Some(i) => {
                            let ghost old_entries = groups[i as int].1.deep_view();
                            let ghost old_raw = groups@;
                            proof {
                                lemma_first_exists(old_groups, name@);
                            }
                            groups[i].1.push((key, entry));
                            assert(groups@.len() == old_raw.len());
                            assert(groups@[i as int].0 == old_raw[i as int].0);
                            assert(forall|j: int| 0 <= j < groups@.len() && j != i ==> groups@[j] == old_raw[j]);
                            assert(groups[i as int].1.deep_view() =~= old_entries.push((key@, entry@)));
                            assert(groups.deep_view() =~= old_groups.update(
                                i as int,
                                (name@, old_entries.push((key@, entry@))),
                            ));
                        },
                        None => {
                            let mut entries: Entries = Vec::new();
                            entries.push((key, entry));
                            assert(entries.deep_view() =~= seq![(key@, entry@)]);
                            groups.push((name, entries));
                            assert(groups.deep_view() =~= old_groups.push((name@, seq![(key@, entry@)])));
                        },
                    },
                    None => {},
                }
            },
            Some(Grouping::Invalid) => {},
        }
        Ok(())
    }
}

} // verus!
