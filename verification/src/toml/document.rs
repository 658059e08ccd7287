use vstd::prelude::*;
use toml_edit::DocumentMut;
use toml_edit::Item;
use toml_edit::TomlError;
use crate::toml::tree::child;
use crate::toml::tree::is_headed;
use crate::toml::keyed::distinct;
use crate::toml::tree::TreeView;

verus! {

/// `toml_edit::Item`: a node of a document. Nothing is known of it but what
/// the functions below say.
#[verifier::external_type_specification]
#[verifier::external_body]
pub struct ExItem(Item);

/// `toml_edit::DocumentMut`: a document that can be edited and written out
/// again. Nothing is known of it but what the functions below say.
#[verifier::external_type_specification]
#[verifier::external_body]
pub struct ExDocumentMut(DocumentMut);

/// `toml_edit::TomlError`: why a text is not TOML.
#[verifier::external_type_specification]
#[verifier::external_body]
pub struct ExTomlError(TomlError);

/// What an item holds. The empty item holds nothing; a string or a
/// boolean value holds that string or boolean; an array value holds what
/// its elements hold, in order; a table, under a header or in one line,
/// holds its keys in the order in which `TableLike::iter` hands them out,
/// each with what the item under it holds; an array of tables is
/// `Tables`; every other value is `Other`.
pub uninterp spec fn item_tree(item: Item) -> TreeView;

/// What the root item of a document holds.
pub uninterp spec fn document_tree(doc: DocumentMut) -> TreeView;

/// The text that a document is written out as, with the comments, the
/// spacing and the order that it carries; `None` for a document whose root
/// was replaced by something that is no table under a header, which cannot
/// be written out.
pub uninterp spec fn document_text(doc: DocumentMut) -> Option<Seq<char>>;

/// What the root of the document holds that a text parses to; `None` for a
/// text that is not TOML.
pub uninterp spec fn parsed_tree(text: Seq<char>) -> Option<TreeView>;

/// `Item::as_str` hands out the string of an item that is a string value,
/// and `None` for every other item.
pub assume_specification<'a>[ Item::as_str ](item: &'a Item) -> (text: Option<&'a str>)
    ensures
        match text {
            Some(s) => item_tree(*item) == TreeView::Text(s@),
            None => !(item_tree(*item) is Text),
        },
;

/// `Item::as_bool` hands out the boolean of an item that is a boolean
/// value, and `None` for every other item.
pub assume_specification[ Item::as_bool ](item: &Item) -> (flag: Option<bool>)
    ensures
        match flag {
            Some(b) => item_tree(*item) == TreeView::Flag(b),
            None => !(item_tree(*item) is Flag),
        },
;

/// `Item::is_none` tells whether the item is the empty one.
pub assume_specification[ Item::is_none ](item: &Item) -> (absent: bool)
    ensures
        absent == (item_tree(*item) is Absent),
;

/// `Item::is_table_like` tells whether the item is a table, written in
/// either of TOML's two ways.
pub assume_specification[ Item::is_table_like ](item: &Item) -> (table: bool)
    ensures
        table == (item_tree(*item) is Table),
;

/// `Item::is_table` tells whether the item is a table under a header of its
/// own.
pub assume_specification[ Item::is_table ](item: &Item) -> (headed: bool)
    ensures
        headed == is_headed(item_tree(*item)),
;

/// `Item::is_array_of_tables` tells whether the item is an array of tables.
pub assume_specification[ Item::is_array_of_tables ](item: &Item) -> (tables: bool)
    ensures
        tables == (item_tree(*item) is Tables),
;

/// `DocumentMut::as_item` hands out the root of the document.
pub assume_specification<'a>[ DocumentMut::as_item ](doc: &'a DocumentMut) -> (root: &'a Item)
    ensures
        item_tree(*root) == document_tree(*doc),
;

/// `DocumentMut::as_item_mut` hands out the root of the document for
/// writing: what the root holds when the borrow ends is what the document
/// then holds.
pub assume_specification<'a>[ DocumentMut::as_item_mut ](doc: &'a mut DocumentMut) -> (root:
    &'a mut Item)
    ensures
        item_tree(*root) == document_tree(*old(doc)),
        document_tree(*final(doc)) == item_tree(*final(root)),
;

/// `toml_edit::table` makes a table with no keys, under a header of its
/// own.
pub assume_specification[ toml_edit::table ]() -> (item: Item)
    ensures
        item_tree(item) == TreeView::Table(true, Seq::empty()),
;

/// The keys of a table, through `Item::as_table_like` and `TableLike::iter`,
/// in the order in which the table hands them out; `None` for an item that
/// is no table. A table holds no key twice.
#[verifier::external_body]
pub(crate) fn table_keys(item: &Item) -> (keys: Option<Vec<String>>)
    ensures
        match keys {
            Some(keys) => {
                &&& item_tree(*item) matches TreeView::Table(_, entries)
                &&& keys.len() == entries.len()
                &&& forall|i: int| 0 <= i < keys.len() ==> (#[trigger] keys[i])@ == entries[i].0
                &&& distinct(entries)
            },
            None => !(item_tree(*item) is Table),
        },
{
    item.as_table_like().map(|table| table.iter().map(|(key, _)| String::from(key)).collect())
}

/// What stands under a key of a table, through `Item::as_table_like` and
/// `TableLike::get`; `None` where the item is no table or holds no such key.
#[verifier::external_body]
pub(crate) fn table_get<'a>(item: &'a Item, key: &str) -> (found: Option<&'a Item>)
    ensures
        match found {
            Some(node) => item_tree(*node) == child(item_tree(*item), key@),
            None => child(item_tree(*item), key@) is Absent,
        },
{
    item.as_table_like().and_then(|table| table.get(key))
}

/// The number of elements of an array value, through `Item::as_array` and
/// `Array::len`; `None` for an item that is no array value.
#[verifier::external_body]
pub(crate) fn list_len(item: &Item) -> (len: Option<usize>)
    ensures
        match len {
            Some(n) => item_tree(*item) matches TreeView::List(elements) && elements.len() == n,
            None => !(item_tree(*item) is List),
        },
{
    item.as_array().map(|array| array.len())
}

/// The element of an array value at an index, through `Item::get`.
#[verifier::external_body]
pub(crate) fn list_get<'a>(item: &'a Item, index: usize) -> (found: Option<&'a Item>)
    ensures
        item_tree(*item) matches TreeView::List(elements) ==> match found {
            Some(node) => index < elements.len() && item_tree(*node) == elements[index as int],
            None => index >= elements.len(),
        },
{
    item.get(index)
}

/// The place under a key of a table, through `IndexMut` on `Item`: it holds
/// what stood under the key, and what it holds when the borrow ends is
/// what then stands under the key. Every other key keeps what it held,
/// and the table stays under its header, or in one line, as it was.
#[verifier::external_body]
pub(crate) fn entry_mut<'a>(table: &'a mut Item, key: &str) -> (slot: &'a mut Item)
    requires
        item_tree(*old(table)) is Table,
    ensures
        item_tree(*slot) == child(item_tree(*old(table)), key@),
        item_tree(*final(table)) is Table,
        is_headed(item_tree(*final(table))) == is_headed(item_tree(*old(table))),
        child(item_tree(*final(table)), key@) == item_tree(*final(slot)),
        forall|other: Seq<char>|
            other != key@ ==> #[trigger] child(item_tree(*final(table)), other) == child(
                item_tree(*old(table)),
                other,
            ),
{
    &mut table[key]
}

/// A table with no keys that is written in one line, as a value, through
/// `InlineTable::new`.
#[verifier::external_body]
pub(crate) fn inline_table() -> (item: Item)
    ensures
        item_tree(item) == TreeView::Table(false, Seq::empty()),
{
    Item::Value(toml_edit::Value::InlineTable(toml_edit::InlineTable::new()))
}

/// A string value, through `From<String>` for `toml_edit::Value`.
#[verifier::external_body]
pub(crate) fn text_item(text: String) -> (item: Item)
    ensures
        item_tree(item) == TreeView::Text(text@),
{
    Item::Value(toml_edit::Value::from(text))
}

/// A boolean value, through `From<bool>` for `toml_edit::Value`.
#[verifier::external_body]
pub(crate) fn flag_item(flag: bool) -> (item: Item)
    ensures
        item_tree(item) == TreeView::Flag(flag),
{
    Item::Value(toml_edit::Value::from(flag))
}

/// Parses a text, through `FromStr` for `DocumentMut`. A document that a
/// text parses to has a table under a header at its root, and can be
/// written out.
#[verifier::external_body]
pub(crate) fn parse_document(text: &str) -> (result: Result<DocumentMut, TomlError>)
    ensures
        match result {
            Ok(doc) => parsed_tree(text@) == Some(document_tree(doc)) && is_headed(
                document_tree(doc),
            ) && document_text(doc) is Some,
            Err(_) => parsed_tree(text@) is None,
        },
{
    text.parse::<DocumentMut>()
}

/// What the parser found wrong and where, through `Display` for
/// `TomlError`: the line and the column, the line of the text, and the
/// message.
#[verifier::external_body]
pub(crate) fn error_message(error: &TomlError) -> (message: String)
{
    error.to_string()
}

/// Writes a document out, through `Item::as_table` on its root and
/// `Display` for `DocumentMut`; `None` for a document whose root is no
/// table under a header, which `Display` cannot take.
#[verifier::external_body]
pub(crate) fn write_document(doc: &DocumentMut) -> (text: Option<String>)
    ensures
        text.deep_view() == document_text(*doc),
{
    doc.as_item().as_table().map(|_| doc.to_string())
}

} // verus!
