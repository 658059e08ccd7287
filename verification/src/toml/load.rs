use vstd::prelude::*;
use vstd::string::StringExecFns;
use toml_edit::DocumentMut;
use toml_edit::Item;
use crate::errors::LoadError;
use crate::errors::LoadErrorView;
use crate::toml::document::document_text;
use crate::toml::document::document_tree;
use crate::toml::document::error_message;
use crate::toml::document::item_tree;
use crate::toml::document::list_get;
use crate::toml::document::list_len;
use crate::toml::document::parse_document;
use crate::toml::document::parsed_tree;
use crate::toml::document::table_get;
use crate::toml::document::table_keys;
use crate::toml::document::write_document;
use crate::toml::agreement::lemma_manifest_of_agrees;
use crate::toml::grouping::grouping_of;
use crate::toml::grouping::grouping_wf;
use crate::toml::grouping::lists;
use crate::toml::grouping::Grouping;
use crate::toml::keyed::contains_key;
use crate::toml::keyed::lemma_push_distinct;
use crate::toml::keyed::same_text;
use crate::toml::manifest::manifest_fault;
use crate::toml::manifest::sections_wf;
use crate::toml::manifest::ManifestView;
use crate::toml::manifest::Provider;
use crate::toml::manifest::ProviderView;
use crate::toml::manifest::Providers;
use crate::toml::manifest::ProvidersView;
use crate::toml::manifest::SinkTOML;
use crate::toml::tree::child;
use crate::toml::tree::entries_of;
use crate::toml::tree::lemma_child_at;
use crate::toml::tree::TreeView;

verus! {

/// Whether a node is a string or is missing.
pub open spec fn is_optional_text(node: TreeView) -> bool {
    node is Absent || node is Text
}

/// The string at a node, if it is one.
pub open spec fn text_of(node: TreeView) -> Option<Seq<char>> {
    match node {
        TreeView::Text(text) => Some(text),
        _ => None,
    }
}

/// Whether a key at the top of a manifest is a setting of the manifest
/// itself. Every other key there names a provider.
pub open spec fn is_reserved(key: Seq<char>) -> bool {
    key == "default-owner"@ || key == "default-group"@ || key == "includes"@
}

/// The name of a field of a section, as an error gives it.
pub open spec fn dotted(section: Seq<char>, field: Seq<char>) -> Seq<char> {
    section + "."@ + field
}

/// The paths of an `includes` node: none where it is missing, its strings
/// where it is an array of strings, and `None` for anything else.
pub open spec fn includes_in(node: TreeView) -> Option<Seq<Seq<char>>> {
    match node {
        TreeView::Absent => Some(Seq::empty()),
        TreeView::List(elements) => if forall|i: int|
            0 <= i < elements.len() ==> (#[trigger] elements[i]) is Text {
            Some(Seq::new(elements.len(), |i: int| elements[i]->Text_0))
        } else {
            None
        },
        _ => None,
    }
}

/// What is wrong with the section of a provider: it is no table, or the
/// first of `provider`, `default-group`, `default-owner` and
/// `default-repository` that holds something other than a string.
pub open spec fn section_fault(name: Seq<char>, node: TreeView) -> Option<LoadErrorView> {
    if !(node is Table) {
        Some(LoadErrorView::Structure(name))
    } else if !is_optional_text(child(node, "provider"@)) {
        Some(LoadErrorView::Structure(dotted(name, "provider"@)))
    } else if !is_optional_text(child(node, "default-group"@)) {
        Some(LoadErrorView::Structure(dotted(name, "default-group"@)))
    } else if !is_optional_text(child(node, "default-owner"@)) {
        Some(LoadErrorView::Structure(dotted(name, "default-owner"@)))
    } else if !is_optional_text(child(node, "default-repository"@)) {
        Some(LoadErrorView::Structure(dotted(name, "default-repository"@)))
    } else {
        None
    }
}

/// The owner that the dependencies of a section default to: its own
/// default, else that of the manifest.
pub open spec fn owner_for(
    section_owner: Option<Seq<char>>,
    manifest_owner: Option<Seq<char>>,
) -> Option<Seq<char>> {
    if section_owner is Some {
        section_owner
    } else {
        manifest_owner
    }
}

/// The section that a table stands for. Keys that it holds besides the
/// known ones are passed over.
pub open spec fn section_in(node: TreeView, manifest_owner: Option<Seq<char>>) -> ProviderView {
    ProviderView {
        provider: text_of(child(node, "provider"@)),
        default_group: text_of(child(node, "default-group"@)),
        default_owner: text_of(child(node, "default-owner"@)),
        default_repository: text_of(child(node, "default-repository"@)),
        dependencies: grouping_of(
            child(node, "dependencies"@),
            owner_for(text_of(child(node, "default-owner"@)), manifest_owner),
        ),
    }
}

/// The sections that the keys of the root stand for, in their order, the
/// settings of the manifest itself left out; or what is wrong with the
/// first section that is at fault.
pub open spec fn sections_in(
    nodes: Seq<(Seq<char>, TreeView)>,
    manifest_owner: Option<Seq<char>>,
) -> Result<ProvidersView, LoadErrorView>
    decreases nodes.len(),
{
    if nodes.len() == 0 {
        Ok(Seq::empty())
    } else {
        match sections_in(nodes.drop_last(), manifest_owner) {
            Err(e) => Err(e),
            Ok(sections) => if is_reserved(nodes.last().0) {
                Ok(sections)
            } else {
                match section_fault(nodes.last().0, nodes.last().1) {
                    Some(e) => Err(e),
                    None => Ok(
                        sections.push((nodes.last().0, section_in(nodes.last().1, manifest_owner))),
                    ),
                }
            },
        }
    }
}

/// What a document says as values: the settings of the manifest, then one
/// section for every other key of the root. It fails on the first key that
/// holds a value of the wrong kind: `default-owner`, `default-group` and
/// `includes` are looked at first, the sections after them in their order.
pub open spec fn manifest_of(tree: TreeView) -> Result<ManifestView, LoadErrorView> {
    if !(tree is Table) {
        Err(LoadErrorView::Structure(Seq::empty()))
    } else if !is_optional_text(child(tree, "default-owner"@)) {
        Err(LoadErrorView::Structure("default-owner"@))
    } else if !is_optional_text(child(tree, "default-group"@)) {
        Err(LoadErrorView::Structure("default-group"@))
    } else if includes_in(child(tree, "includes"@)) is None {
        Err(LoadErrorView::Structure("includes"@))
    } else {
        match sections_in(entries_of(tree), text_of(child(tree, "default-owner"@))) {
            Err(e) => Err(e),
            Ok(providers) => Ok(
                ManifestView {
                    default_owner: text_of(child(tree, "default-owner"@)),
                    default_group: text_of(child(tree, "default-group"@)),
                    includes: includes_in(child(tree, "includes"@))->0,
                    providers,
                },
            ),
        }
    }
}

/// What loading a document gives: what it says as values, provided that
/// every entry in it is a dependency.
pub open spec fn loaded(tree: TreeView) -> Result<ManifestView, LoadErrorView> {
    match manifest_of(tree) {
        Err(e) => Err(e),
        Ok(model) => match manifest_fault(model.providers) {
            Some(fault) => Err(LoadErrorView::Validation(fault)),
            None => Ok(model),
        },
    }
}

/// The text of a document; empty where it cannot be written out.
pub open spec fn written_text(doc: DocumentMut) -> Seq<char> {
    match document_text(doc) {
        Some(text) => text,
        None => Seq::empty(),
    }
}

/// A section that is at fault stays the first fault, whatever follows it.
proof fn lemma_sections_fault(
    nodes: Seq<(Seq<char>, TreeView)>,
    manifest_owner: Option<Seq<char>>,
    n: int,
)
    requires
        0 <= n <= nodes.len(),
        sections_in(nodes.take(n), manifest_owner) is Err,
    ensures
        sections_in(nodes, manifest_owner) == sections_in(nodes.take(n), manifest_owner),
    decreases nodes.len() - n,
{
    if n == nodes.len() {
        assert(nodes.take(n) =~= nodes);
    } else {
        assert(nodes.drop_last().take(n) =~= nodes.take(n));
        lemma_sections_fault(nodes.drop_last(), manifest_owner, n);
    }
}

/// The string under a key of a table that may be missing; `Err` where
/// something other than a string stands there.
pub(crate) fn optional_text(item: &Item, key: &str) -> (result: Result<Option<String>, ()>)
    ensures
        match result {
            Ok(text) => is_optional_text(child(item_tree(*item), key@)) && text.deep_view() == text_of(
                child(item_tree(*item), key@),
            ),
            Err(_) => !is_optional_text(child(item_tree(*item), key@)),
        },
{
    match table_get(item, key) {
        Some(node) => match node.as_str() {
            Some(text) => Ok(Some(String::from_str(text))),
            None => if node.is_none() {
                Ok(None)
            } else {
                Err(())
            },
        },
        None => Ok(None),
    }
}

/// The error that names a field of a section.
pub(crate) fn field_fault(section: &str, field: &str) -> (fault: LoadError)
    ensures
        fault@ == LoadErrorView::Structure(dotted(section@, field@)),
{
    let mut name = String::from_str(section);
    name.append(".");
    name.append(field);
    LoadError::Structure(name)
}

/// Reads the paths under `includes`.
pub(crate) fn read_includes(root: &Item) -> (paths: Option<Vec<String>>)
    ensures
        paths.deep_view() == includes_in(child(item_tree(*root), "includes"@)),
{
    let node = match table_get(root, "includes") {
        Some(node) => node,
        None => {
            let paths: Vec<String> = Vec::new();
            assert(paths.deep_view() =~= Seq::<Seq<char>>::empty());
            return Some(paths);
        },
    };
    if node.is_none() {
        let paths: Vec<String> = Vec::new();
        assert(paths.deep_view() =~= Seq::<Seq<char>>::empty());
        return Some(paths);
    }
    let len = match list_len(node) {
        Some(len) => len,
        None => {
            return None;
        },
    };
    let ghost elements = item_tree(*node)->List_0;
    let mut paths: Vec<String> = Vec::new();
    let mut i: usize = 0;
    while i < len
        invariant
            i <= len,
            item_tree(*node) == TreeView::List(elements),
            item_tree(*node) == child(item_tree(*root), "includes"@),
            elements.len() == len,
            paths.len() == i,
            forall|j: int| 0 <= j < i ==> (#[trigger] elements[j]) == TreeView::Text(paths[j]@),
        decreases len - i,
    {
        let text = match list_get(node, i) {
            Some(element) => match element.as_str() {
                Some(text) => String::from_str(text),
                None => {
                    assert(!(elements[i as int] is Text));
                    return None;
                },
            },
            None => {
                return None;
            },
        };
        paths.push(text);
        i = i + 1;
    }
    assert(paths.deep_view() =~= includes_in(item_tree(*node))->0);
    Some(paths)
}

impl Provider {
    /// Reads the section of a provider from the item under its name.
    pub fn read(name: &str, item: &Item, manifest_owner: &Option<String>) -> (result: Result<
        Provider,
        LoadError,
    >)
        ensures
            match result {
                Ok(section) => section_fault(name@, item_tree(*item)) is None && section@
                    == section_in(item_tree(*item), manifest_owner.deep_view())
                    && (section@.dependencies matches Some(grouping) ==> grouping_wf(grouping)),
                Err(e) => section_fault(name@, item_tree(*item)) == Some(e@),
            },
    {
        if !item.is_table_like() {
            return Err(LoadError::Structure(String::from_str(name)));
        }
        let provider = match optional_text(item, "provider") {
            Ok(text) => text,
            Err(_) => {
                return Err(field_fault(name, "provider"));
            },
        };
        let default_group = match optional_text(item, "default-group") {
            Ok(text) => text,
            Err(_) => {
                return Err(field_fault(name, "default-group"));
            },
        };
        let default_owner = match optional_text(item, "default-owner") {
            Ok(text) => text,
            Err(_) => {
                return Err(field_fault(name, "default-owner"));
            },
        };
        let default_repository = match optional_text(item, "default-repository") {
            Ok(text) => text,
            Err(_) => {
                return Err(field_fault(name, "default-repository"));
            },
        };
        let dependencies = match table_get(item, "dependencies") {
            Some(node) => match &default_owner {
                Some(_) => Grouping::read(node, &default_owner),
                None => Grouping::read(node, manifest_owner),
            },
            None => None,
        };
        Ok(Provider { provider, default_group, default_owner, default_repository, dependencies })
    }
}

/// Tells whether a key at the top of a manifest is a setting of the
/// manifest itself.
pub(crate) fn is_reserved_key(key: &str) -> (reserved: bool)
    ensures
        reserved == is_reserved(key@),
{
    same_text(key, "default-owner") || same_text(key, "default-group") || same_text(key, "includes")
}

/// Reads the sections of the providers from the root of a document.
pub(crate) fn read_sections(root: &Item, manifest_owner: &Option<String>) -> (result: Result<
    Providers,
    LoadError,
>)
    requires
        item_tree(*root) is Table,
    ensures
        match result {
            Ok(sections) => sections_in(entries_of(item_tree(*root)), manifest_owner.deep_view())
                == Ok::<ProvidersView, LoadErrorView>(sections.deep_view()) && sections_wf(
                sections.deep_view(),
            ),
            Err(e) => sections_in(entries_of(item_tree(*root)), manifest_owner.deep_view()) == Err::<
                ProvidersView,
                LoadErrorView,
            >(e@),
        },
{
    let ghost nodes = entries_of(item_tree(*root));
    let ghost owner = manifest_owner.deep_view();
    let keys = match table_keys(root) {
        Some(keys) => keys,
        None => Vec::new(),
    };
    let mut sections: Providers = Vec::new();
    let mut i: usize = 0;
    assert(nodes.take(0) =~= Seq::<(Seq<char>, TreeView)>::empty());
    assert(sections.deep_view() =~= Seq::<(Seq<char>, ProviderView)>::empty());
    while i < keys.len()
        invariant
            i <= keys.len(),
            item_tree(*root) is Table,
            entries_of(item_tree(*root)) == nodes,
            owner == manifest_owner.deep_view(),
            lists(keys@, nodes),
            sections_in(nodes.take(i as int), owner) == Ok::<ProvidersView, LoadErrorView>(
                sections.deep_view(),
            ),
            sections_wf(sections.deep_view()),
            forall|k: int|
                0 <= k < sections.len() ==> exists|j: int|
                    0 <= j < i && (#[trigger] nodes[j]).0 == (#[trigger] sections.deep_view()[k]).0,
        decreases keys.len() - i,
    {
        let name = keys[i].clone();
        proof {
            lemma_child_at(item_tree(*root), i as int);
            assert(nodes.take(i + 1).drop_last() =~= nodes.take(i as int));
            assert(nodes.take(i + 1).last() == nodes[i as int]);
        }
        if !is_reserved_key(name.as_str()) {
            let read = match table_get(root, name.as_str()) {
                Some(node) => Provider::read(name.as_str(), node, manifest_owner),
                None => Err(LoadError::Structure(name.clone())),
            };
            match read {
                Ok(section) => {
                    let ghost before = sections.deep_view();
                    sections.push((name, section));
                    assert(sections.deep_view() =~= before.push((name@, section@)));
                    proof {
                        assert(!contains_key(before, name@)) by {
                            if contains_key(before, name@) {
                                let k = choose|k: int|
                                    0 <= k < before.len() && (#[trigger] before[k]).0 == name@;
                                let j = choose|j: int|
                                    0 <= j < i && (#[trigger] nodes[j]).0 == before[k].0;
                                assert(nodes[j].0 != nodes[i as int].0);
                            }
                        }
                        lemma_push_distinct(before, name@, section@);
                        assert forall|k: int| 0 <= k < sections.len() implies exists|j: int|
                            0 <= j < i + 1 && (#[trigger] nodes[j]).0 == (
                            #[trigger] sections.deep_view()[k]).0 by {
                            if k < before.len() {
                                let j = choose|j: int|
                                    0 <= j < i && (#[trigger] nodes[j]).0 == before[k].0;
                                assert(nodes[j].0 == sections.deep_view()[k].0);
                            } else {
                                assert(nodes[i as int].0 == sections.deep_view()[k].0);
                            }
                        }
                    }
                },
                Err(e) => {
                    proof {
                        lemma_sections_fault(nodes, owner, i + 1);
                    }
                    return Err(e);
                },
            }
        }
        i = i + 1;
    }
    assert(nodes.take(keys.len() as int) =~= nodes);
    Ok(sections)
}

impl SinkTOML {
    /// Reads what a document says as values and keeps the document with it,
    /// whether or not every entry in it is a dependency. Fails where a key
    /// holds a value of the wrong kind.
    pub fn read_document(doc: DocumentMut, path: String) -> (result: Result<SinkTOML, LoadError>)
        ensures
            match result {
                Ok(manifest) => manifest_of(document_tree(doc)) == Ok::<ManifestView, LoadErrorView>(
                    manifest@,
                ) && manifest.is_consistent() && manifest.formatted == doc && manifest.path == path,
                Err(e) => manifest_of(document_tree(doc)) == Err::<ManifestView, LoadErrorView>(e@),
            },
    {
        let root = doc.as_item();
        if !root.is_table_like() {
            return Err(LoadError::Structure(String::new()));
        }
        let default_owner = match optional_text(root, "default-owner") {
            Ok(text) => text,
            Err(_) => {
                return Err(LoadError::Structure(String::from_str("default-owner")));
            },
        };
        let default_group = match optional_text(root, "default-group") {
            Ok(text) => text,
            Err(_) => {
                return Err(LoadError::Structure(String::from_str("default-group")));
            },
        };
        let includes = match read_includes(root) {
            Some(paths) => paths,
            None => {
                return Err(LoadError::Structure(String::from_str("includes")));
            },
        };
        let providers = match read_sections(root, &default_owner) {
            Ok(providers) => providers,
            Err(e) => {
                return Err(e);
            },
        };
        let manifest = SinkTOML { default_owner, default_group, includes, providers, path, formatted: doc };
        proof {
            lemma_manifest_of_agrees(document_tree(doc));
        }
        Ok(manifest)
    }

    /// Reads a manifest from a document and keeps the document with it.
    /// Fails where a key holds a value of the wrong kind, or where an
    /// entry is no dependency; succeeds otherwise, with exactly what the
    /// document says.
    pub fn from_document(doc: DocumentMut, path: String) -> (result: Result<SinkTOML, LoadError>)
        ensures
            match result {
                Ok(manifest) => loaded(document_tree(doc)) == Ok::<ManifestView, LoadErrorView>(
                    manifest@,
                ) && manifest.is_consistent() && manifest.formatted == doc && manifest.path == path,
                Err(e) => loaded(document_tree(doc)) == Err::<ManifestView, LoadErrorView>(e@),
            },
    {
        let manifest = match SinkTOML::read_document(doc, path) {
            Ok(manifest) => manifest,
            Err(e) => {
                return Err(e);
            },
        };
        match manifest.validate() {
            Ok(()) => Ok(manifest),
            Err(fault) => Err(LoadError::Validation(fault)),
        }
    }

    /// Reads a manifest from the text of a file. Fails where the text is
    /// not TOML, and otherwise as [`SinkTOML::from_document`] does on the
    /// document that the text parses to.
    pub fn from_toml(text: &str, path: String) -> (result: Result<SinkTOML, LoadError>)
        ensures
            match parsed_tree(text@) {
                Some(tree) => match result {
                    Ok(manifest) => loaded(tree) == Ok::<ManifestView, LoadErrorView>(manifest@)
                        && manifest.is_consistent() && document_tree(manifest.formatted) == tree
                        && document_text(manifest.formatted) is Some && manifest.path == path,
                    Err(e) => loaded(tree) == Err::<ManifestView, LoadErrorView>(e@),
                },
                None => result matches Err(LoadError::Syntax(_)),
            },
    {
        match parse_document(text) {
            Ok(doc) => SinkTOML::from_document(doc, path),
            Err(e) => Err(LoadError::Syntax(error_message(&e))),
        }
    }

    /// The text of the manifest: the document written out, so that what
    /// the file held and was not touched stays as it was; `None` where the
    /// document cannot be written out, so that nothing is taken for the
    /// text of a manifest that is none.
    pub fn try_to_toml(&self) -> (text: Option<String>)
        ensures
            text.deep_view() == document_text(self.formatted),
    {
        write_document(&self.formatted)
    }

    /// The text of the manifest, as [`SinkTOML::try_to_toml`] gives it, for
    /// showing: the text is empty where the document cannot be written
    /// out.
    pub fn to_toml(&self) -> (text: String)
        ensures
            text@ == written_text(self.formatted),
    {
        match write_document(&self.formatted) {
            Some(text) => text,
            None => String::new(),
        }
    }
}

} // verus!
