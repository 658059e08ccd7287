use vstd::prelude::*;
use vstd::string::StringExecFns;
use toml_edit::DocumentMut;
use toml_edit::Item;
use crate::errors::AddError;
use crate::errors::AddErrorView;
use crate::toml::agreement::agrees;
use crate::toml::agreement::lemma_add_keeps_agreement;
use crate::toml::agreement::lemma_agreeing_document_has_room;
use crate::toml::agreement::owner_of;
use crate::toml::document::document_tree;
use crate::toml::document::entry_mut;
use crate::toml::document::inline_table;
use crate::toml::document::item_tree;
use crate::toml::document::table_get;
use crate::toml::entry::entry_of;
use crate::toml::entry::DependencyType;
use crate::toml::entry::EntryView;
use crate::toml::grouping::refusal;
use crate::toml::grouping::with_entry;
use crate::toml::grouping::Grouping;
use crate::toml::grouping::GroupingView;
use crate::toml::keyed::contains_key;
use crate::toml::keyed::find;
use crate::toml::keyed::lemma_first_exists;
use crate::toml::keyed::position;
use crate::toml::keyed::value_at;
use crate::toml::laws::lemma_add_keeps_valid;
use crate::toml::laws::lemma_add_keeps_wf;
use crate::toml::load::is_reserved;
use crate::toml::manifest::manifest_fault;
use crate::toml::manifest::manifest_wf;
use crate::toml::manifest::ManifestView;
use crate::toml::manifest::Provider;
use crate::toml::manifest::ProviderView;
use crate::toml::manifest::SinkTOML;
use crate::toml::tree::child;
use crate::toml::tree::is_headed;
use crate::toml::tree::lookup;
use crate::toml::tree::written;
use crate::toml::tree::KeyPath;
use crate::toml::tree::TreeView;

verus! {

/// The group that an entry goes to: the one asked for, else the default of
/// its provider, else the default of the manifest, else none.
pub open spec fn resolved_group(
    requested: Option<Seq<char>>,
    provider_default: Option<Seq<char>>,
    manifest_default: Option<Seq<char>>,
) -> Option<Seq<char>> {
    if requested is Some {
        requested
    } else if provider_default is Some {
        provider_default
    } else {
        manifest_default
    }
}

/// The section of a provider, if the manifest has one.
pub open spec fn section_of(model: ManifestView, provider: Seq<char>) -> Option<ProviderView> {
    if contains_key(model.providers, provider) {
        Some(value_at(model.providers, provider))
    } else {
        None
    }
}

/// The dependencies of a provider, if the manifest has any for it.
pub open spec fn container_of(model: ManifestView, provider: Seq<char>) -> Option<GroupingView> {
    match section_of(model, provider) {
        Some(section) => section.dependencies,
        None => None,
    }
}

/// The group that an entry of a provider goes to in this manifest.
pub open spec fn group_for(
    model: ManifestView,
    provider: Seq<char>,
    requested: Option<Seq<char>>,
) -> Option<Seq<char>> {
    resolved_group(
        requested,
        match section_of(model, provider) {
            Some(section) => section.default_group,
            None => None,
        },
        model.default_group,
    )
}

/// A section that states nothing.
pub open spec fn empty_section() -> ProviderView {
    ProviderView {
        provider: None,
        default_group: None,
        default_owner: None,
        default_repository: None,
        dependencies: None,
    }
}

/// The manifest after an entry was added to a provider: the provider's
/// dependencies have grown by it, and a provider that was not there has
/// been added behind the others. Nothing else differs.
pub open spec fn manifest_with(
    model: ManifestView,
    provider: Seq<char>,
    requested: Option<Seq<char>>,
    key: Seq<char>,
    entry: EntryView,
) -> ManifestView {
    let grown = with_entry(
        container_of(model, provider),
        group_for(model, provider, requested),
        key,
        entry,
    );
    let section = match section_of(model, provider) {
        Some(section) => section,
        None => empty_section(),
    };
    let section = ProviderView { dependencies: Some(grown), ..section };
    ManifestView {
        providers: if contains_key(model.providers, provider) {
            model.providers.update(position(model.providers, provider), (provider, section))
        } else {
            model.providers.push((provider, section))
        },
        ..model
    }
}

/// Where an entry stands in the document: under the provider, then under
/// `dependencies`, then under its group if it has one, then under its key.
pub open spec fn key_path(provider: Seq<char>, group: Option<Seq<char>>, key: Seq<char>) -> KeyPath {
    match group {
        Some(name) => seq![provider, "dependencies"@, name, key],
        None => seq![provider, "dependencies"@, key],
    }
}

/// Whether a value can be put where `path` leads: each node on the way is
/// a table, or is absent together with all that would follow it.
pub open spec fn writable(tree: TreeView, path: KeyPath) -> bool
    decreases path.len(),
{
    if path.len() == 0 {
        true
    } else {
        tree is Table && (child(tree, path[0]) is Absent || writable(
            child(tree, path[0]),
            path.skip(1),
        ))
    }
}

/// Why an entry cannot be added to a manifest whose document holds `tree`:
/// for the reason that [`refusal`] gives, or, where it gives none, because
/// the document holds something other than a table on the way to where the
/// value belongs. `None` if the entry can be added.
pub open spec fn add_fault(
    model: ManifestView,
    tree: TreeView,
    provider: Seq<char>,
    requested: Option<Seq<char>>,
    key: Seq<char>,
) -> Option<AddErrorView> {
    let group = group_for(model, provider, requested);
    match refusal(container_of(model, provider), group, key) {
        Some(why) => Some(why),
        None => if writable(tree, key_path(provider, group, key)) {
            None
        } else {
            Some(AddErrorView::CorruptContainer)
        },
    }
}

/// Where the table stands that an entry goes in: under the provider, then
/// under `dependencies`, then under the group of the entry if it has one.
pub open spec fn container_path(provider: Seq<char>, group: Option<Seq<char>>) -> KeyPath {
    match group {
        Some(name) => seq![provider, "dependencies"@, name],
        None => seq![provider, "dependencies"@],
    }
}

/// Whether the table that `path` leads to stands under a header of its
/// own, once the tables on the way that are missing have been made: each
/// of those is made as the table around it is written.
pub open spec fn headed_at(tree: TreeView, path: KeyPath) -> bool
    decreases path.len(),
{
    if path.len() == 0 || child(tree, path[0]) is Absent {
        is_headed(tree)
    } else {
        headed_at(child(tree, path[0]), path.skip(1))
    }
}

/// Whether a value is written out with the document from a table that
/// stands under a header, or from one that does not, as far as the value
/// itself decides: nothing is never written out, and a table in one line
/// writes out values only, so that neither a table under a header nor an
/// array of tables is written out from it.
pub open spec fn fits(value: TreeView, headed: bool) -> bool {
    &&& !(value is Absent)
    &&& headed || !(is_headed(value) || value is Tables)
}

/// Tells whether the table that `path` leads to from `root` stands under a
/// header of its own, or will when it has been made.
pub fn is_headed_at(root: &Item, path: &Vec<String>) -> (headed: bool)
    ensures
        headed == headed_at(item_tree(*root), path.deep_view()),
{
    let ghost keys = path.deep_view();
    let mut node: &Item = root;
    let mut i: usize = 0;
    assert(keys.skip(0) =~= keys);
    while i < path.len()
        invariant
            i <= path.len(),
            keys == path.deep_view(),
            headed_at(item_tree(*root), keys) == headed_at(item_tree(*node), keys.skip(i as int)),
        decreases path.len() - i,
    {
        assert(keys.skip(i as int)[0] == path[i as int]@);
        assert(keys.skip(i as int).skip(1) =~= keys.skip(i + 1));
        match table_get(node, path[i].as_str()) {
            Some(next) => {
                if next.is_none() {
                    return node.is_table();
                }
                node = next;
            },
            None => {
                return node.is_table();
            },
        }
        i = i + 1;
    }
    node.is_table()
}

/// Tells whether a value can be put where `path` leads from `root`.
pub fn can_write(root: &Item, path: &Vec<String>) -> (ok: bool)
    ensures
        ok == writable(item_tree(*root), path.deep_view()),
{
    let ghost keys = path.deep_view();
    let mut node: &Item = root;
    let mut i: usize = 0;
    assert(keys.skip(0) =~= keys);
    while i < path.len()
        invariant
            i <= path.len(),
            keys == path.deep_view(),
            writable(item_tree(*root), keys) == writable(item_tree(*node), keys.skip(i as int)),
        decreases path.len() - i,
    {
        assert(keys.skip(i as int)[0] == path[i as int]@);
        assert(keys.skip(i as int).skip(1) =~= keys.skip(i + 1));
        if !node.is_table_like() {
            return false;
        }
        match table_get(node, path[i].as_str()) {
            Some(next) => {
                if next.is_none() {
                    return true;
                }
                node = next;
            },
            None => {
                return true;
            },
        }
        i = i + 1;
    }
    true
}

/// The place under a key of a table, made a table first if nothing stood
/// there: one under a header of its own where the table around it has
/// one, else one that is written in one line as the table around it is, so
/// that the new table is written out with the document.
fn table_slot<'a>(table: &'a mut Item, key: &str) -> (slot: &'a mut Item)
    requires
        item_tree(*old(table)) is Table,
    ensures
        item_tree(*slot) == if child(item_tree(*old(table)), key@) is Absent {
            TreeView::Table(is_headed(item_tree(*old(table))), Seq::empty())
        } else {
            child(item_tree(*old(table)), key@)
        },
        item_tree(*final(table)) is Table,
        is_headed(item_tree(*final(table))) == is_headed(item_tree(*old(table))),
        child(item_tree(*final(table)), key@) == item_tree(*final(slot)),
        forall|other: Seq<char>|
            other != key@ ==> #[trigger] child(item_tree(*final(table)), other) == child(
                item_tree(*old(table)),
                other,
            ),
{
    let headed = table.is_table();
    let slot = entry_mut(table, key);
    if slot.is_none() {
        *slot = if headed {
            toml_edit::table()
        } else {
            inline_table()
        };
    }
    slot
}

/// Puts a value into the document where an entry of a provider stands,
/// making the tables on the way that are not there yet.
pub(crate) fn put(doc: &mut DocumentMut, provider: &str, group: &Option<String>, key: &str, value: Item)
    requires
        writable(document_tree(*old(doc)), key_path(provider@, group.deep_view(), key@)),
    ensures
        written(
            document_tree(*old(doc)),
            key_path(provider@, group.deep_view(), key@),
            item_tree(value),
            document_tree(*final(doc)),
        ),
        is_headed(lookup(document_tree(*final(doc)), container_path(provider@, group.deep_view())))
            == headed_at(document_tree(*old(doc)), container_path(provider@, group.deep_view())),
{
    let ghost path = key_path(provider@, group.deep_view(), key@);
    let ghost before = document_tree(*doc);
    proof {
        reveal_with_fuel(writable, 5);
        reveal_with_fuel(written, 5);
        reveal_with_fuel(headed_at, 5);
        reveal_with_fuel(lookup, 5);
        let holder = container_path(provider@, group.deep_view());
        assert(holder.skip(1).skip(1) =~= holder.skip(2));
        if group is Some {
            assert(holder.skip(2).skip(1) =~= holder.skip(3));
        }
        assert(path.skip(1).skip(1) =~= path.skip(2));
        assert(path.skip(2).skip(1) =~= path.skip(3));
        if group is Some {
            assert(path.skip(3).skip(1) =~= path.skip(4));
        }
    }
    let root = doc.as_item_mut();
    let section = table_slot(root, provider);
    let dependencies = table_slot(section, "dependencies");
    match group {
        Some(name) => {
            let entries = table_slot(dependencies, name.as_str());
            let slot = entry_mut(entries, key);
            *slot = value;
        },
        None => {
            let slot = entry_mut(dependencies, key);
            *slot = value;
        },
    }
}

/// A copy of a text that may be missing.
pub(crate) fn copy_text(text: &Option<String>) -> (copy: Option<String>)
    ensures
        copy.deep_view() == text.deep_view(),
{
    match text {
        Some(text) => Some(text.clone()),
        None => None,
    }
}

impl SinkTOML {
    /// The group that an entry of a provider goes to: the one asked for,
    /// else the default of the provider, else the default of the manifest.
    pub fn group_for(&self, provider: &str, requested_group: &Option<String>) -> (group: Option<String>)
        ensures
            group.deep_view() == group_for(self@, provider@, requested_group.deep_view()),
    {
        if requested_group.is_some() {
            return copy_text(requested_group);
        }
        let provider_default = match find(&self.providers, provider) {
            Some(i) => {
                proof {
                    lemma_first_exists(self@.providers, provider@);
                }
                copy_text(&self.providers[i].1.default_group)
            },
            None => None,
        };
        match provider_default {
            Some(name) => Some(name),
            None => copy_text(&self.default_group),
        }
    }

    /// Tells whether the table that an entry of a provider goes in stands
    /// under a header of its own in the document, or will when it has
    /// been made. A value [`fits`] such a table or not.
    pub fn holds_headed(&self, provider: &str, requested_group: &Option<String>) -> (headed: bool)
        ensures
            headed == headed_at(
                document_tree(self.formatted),
                container_path(provider@, group_for(self@, provider@, requested_group.deep_view())),
            ),
    {
        let group = self.group_for(provider, requested_group);
        let mut path: Vec<String> = Vec::new();
        path.push(String::from_str(provider));
        path.push(String::from_str("dependencies"));
        if let Some(name) = group {
            path.push(name);
        }
        assert(path.deep_view() =~= container_path(
            provider@,
            group_for(self@, provider@, requested_group.deep_view()),
        ));
        is_headed_at(self.formatted.as_item(), &path)
    }

    /// Tells whether a value fits the table that an entry of a provider
    /// goes in, so that it is written out from there. A value that does
    /// not is still taken by [`SinkTOML::add_dependency`], which takes
    /// every value; who wants the entry in the file asks here first.
    pub fn fits(&self, provider: &str, requested_group: &Option<String>, value: &Item) -> (fitting:
        bool)
        ensures
            fitting == fits(
                item_tree(*value),
                headed_at(
                    document_tree(self.formatted),
                    container_path(
                        provider@,
                        group_for(self@, provider@, requested_group.deep_view()),
                    ),
                ),
            ),
    {
        if value.is_none() {
            return false;
        }
        self.holds_headed(provider, requested_group) || !(value.is_table()
            || value.is_array_of_tables())
    }

    /// Tells why an entry cannot be added under `key` to the dependencies
    /// of a provider; `None` if it can. Changes nothing.
    pub fn refusal(&self, provider: &str, requested_group: &Option<String>, key: &str) -> (why: Option<
        AddError,
    >)
        ensures
            why.deep_view() == add_fault(
                self@,
                document_tree(self.formatted),
                provider@,
                requested_group.deep_view(),
                key@,
            ),
    {
        let group = self.group_for(provider, requested_group);
        let why = match find(&self.providers, provider) {
            Some(i) => {
                proof {
                    lemma_first_exists(self@.providers, provider@);
                }
                Grouping::refusal(&self.providers[i].1.dependencies, &group, key)
            },
            None => None,
        };
        if why.is_some() {
            return why;
        }
        let mut path: Vec<String> = Vec::new();
        path.push(String::from_str(provider));
        path.push(String::from_str("dependencies"));
        if let Some(name) = &group {
            path.push(name.clone());
        }
        path.push(String::from_str(key));
        assert(path.deep_view() =~= key_path(provider@, group.deep_view(), key@));
        if can_write(self.formatted.as_item(), &path) {
            None
        } else {
            Some(AddError::CorruptContainer)
        }
    }

    /// Adds an entry under `key` to the dependencies of a provider, and the
    /// formatted value under the same keys to the document.
    ///
    /// The entry goes to the group that is asked for; where none is, to the
    /// default group of the provider; where it has none, to that of the
    /// manifest; where there is none at all, it is listed directly. It is
    /// refused exactly where [`add_fault`] gives a reason, and a refusal
    /// changes nothing, neither here nor in the document. Otherwise the
    /// manifest has grown as [`manifest_with`] says and the document holds
    /// the value where [`key_path`] leads, with nothing else changed.
    ///
    /// Every value is taken. Whether it is written out with the document
    /// is another matter: see [`fits`], and [`SinkTOML::holds_headed`] for
    /// how the table is written that the value goes in.
    ///
    /// A manifest in which no name or key occurs twice stays so, and so
    /// does one in which every entry is a dependency, if the new entry is
    /// one. Whether the value says what the entry says is not looked at.
    /// Where it does, and the provider is not named like a setting of the
    /// manifest, a manifest that was consistent stays so. In a consistent
    /// manifest the document has room, so that an entry is refused only
    /// for a reason that [`refusal`] gives.
    pub fn add_dependency(
        &mut self,
        provider: &str,
        requested_group: Option<String>,
        key: String,
        entry: DependencyType,
        formatted_value: Item,
    ) -> (result: Result<(), AddError>)
        ensures
            ({
                let model = old(self)@;
                let tree = document_tree(old(self).formatted);
                let requested = requested_group.deep_view();
                match result {
                    Ok(()) => {
                        &&& add_fault(model, tree, provider@, requested, key@) is None
                        &&& final(self)@ == manifest_with(model, provider@, requested, key@, entry@)
                        &&& written(
                            tree,
                            key_path(provider@, group_for(model, provider@, requested), key@),
                            item_tree(formatted_value),
                            document_tree(final(self).formatted),
                        )
                        &&& is_headed(
                            lookup(
                                document_tree(final(self).formatted),
                                container_path(provider@, group_for(model, provider@, requested)),
                            ),
                        ) == headed_at(
                            tree,
                            container_path(provider@, group_for(model, provider@, requested)),
                        )
                        &&& final(self).path == old(self).path
                    },
                    Err(e) => {
                        &&& add_fault(model, tree, provider@, requested, key@) == Some(e@)
                        &&& *final(self) == *old(self)
                    },
                }
            }),
            manifest_wf(old(self)@) ==> manifest_wf(final(self)@),
            manifest_fault(old(self)@.providers) is None && !(entry@ is Invalid) ==> manifest_fault(
                final(self)@.providers,
            ) is None,
            old(self).is_consistent() && (section_of(old(self)@, provider@) is Some || !is_reserved(
                provider@,
            )) ==> (result is Ok <==> refusal(
                container_of(old(self)@, provider@),
                group_for(old(self)@, provider@, requested_group.deep_view()),
                key@,
            ) is None),
            old(self).is_consistent() && !is_reserved(provider@) && entry_of(
                key@,
                item_tree(formatted_value),
                owner_of(old(self)@, provider@),
            ) == entry@ ==> final(self).is_consistent(),
    {
        let ghost model = self@;
        let ghost tree = document_tree(self.formatted);
        proof {
            if manifest_wf(model) && add_fault(
                model,
                tree,
                provider@,
                requested_group.deep_view(),
                key@,
            ) is None {
                lemma_add_keeps_wf(model, provider@, requested_group.deep_view(), key@, entry@);
            }
            if agrees(model, tree) && (section_of(model, provider@) is Some || !is_reserved(
                provider@,
            )) && refusal(
                container_of(model, provider@),
                group_for(model, provider@, requested_group.deep_view()),
                key@,
            ) is None {
                lemma_agreeing_document_has_room(
                    model,
                    tree,
                    provider@,
                    requested_group.deep_view(),
                    key@,
                );
            }
            if manifest_fault(model.providers) is None && !(entry@ is Invalid) && add_fault(
                model,
                tree,
                provider@,
                requested_group.deep_view(),
                key@,
            ) is None {
                lemma_add_keeps_valid(model, provider@, requested_group.deep_view(), key@, entry@);
            }
        }
        if let Some(why) = self.refusal(provider, &requested_group, key.as_str()) {
            return Err(why);
        }
        let group = self.group_for(provider, &requested_group);
        let group_copy = copy_text(&group);
        let key_copy = key.clone();
        match find(&self.providers, provider) {
            Some(i) => {
                let ghost before = self.providers@;
                proof {
                    lemma_first_exists(model.providers, provider@);
                    assert(model.providers[i as int].1 == before[i as int].1@);
                }
                let added = Grouping::add(&mut self.providers[i].1.dependencies, group_copy, key_copy, entry);
                assert(added is Ok);
                assert(self.providers@.len() == before.len());
                assert(forall|j: int| 0 <= j < before.len() && j != i ==> self.providers@[j] == before[j]);
                assert(self.providers@[i as int].0 == before[i as int].0);
                assert(self.providers@[i as int].1.provider == before[i as int].1.provider);
                assert(self.providers@[i as int].1.default_group == before[i as int].1.default_group);
                assert(self.providers@[i as int].1.default_owner == before[i as int].1.default_owner);
                assert(self.providers@[i as int].1.default_repository == before[i as int].1.default_repository);
                assert(self.providers.deep_view()[i as int] == (
                    provider@,
                    ProviderView {
                        dependencies: Some(
                            with_entry(
                                container_of(model, provider@),
                                group.deep_view(),
                                key@,
                                entry@,
                            ),
                        ),
                        ..model.providers[i as int].1
                    },
                ));
                assert(self.providers.deep_view() =~= manifest_with(
                    model,
                    provider@,
                    requested_group.deep_view(),
                    key@,
                    entry@,
                ).providers);
            },
            None => {
                let mut dependencies: Option<Grouping> = None;
                let added = Grouping::add(&mut dependencies, group_copy, key_copy, entry);
                assert(added is Ok);
                let ghost before = self.providers.deep_view();
                let section = Provider {
                    provider: None,
                    default_group: None,
                    default_owner: None,
                    default_repository: None,
                    dependencies,
                };
                self.providers.push((String::from_str(provider), section));
                assert(self.providers.deep_view() =~= before.push((provider@, section@)));
            },
        }
        put(&mut self.formatted, provider, &group, key.as_str(), formatted_value);
        proof {
            if agrees(model, tree) && !is_reserved(provider@) && entry_of(
                key@,
                item_tree(formatted_value),
                owner_of(model, provider@),
            ) == entry@ {
                lemma_add_keeps_agreement(
                    model,
                    tree,
                    document_tree(self.formatted),
                    provider@,
                    requested_group.deep_view(),
                    key@,
                    entry@,
                    item_tree(formatted_value),
                );
            }
        }
        Ok(())
    }
}

} // verus!
