//! What the marketplace configuration reads of a `toml_edit` document, and the
//! `toml_edit` operations it uses, each with the contract that the crate's
//! source shows.
use vstd::prelude::*;

use toml_edit::{DocumentMut, Item, Table, TomlError};

verus! {

#[verifier::external_type_specification]
#[verifier::external_body]
pub struct ExDocumentMut(DocumentMut);

#[verifier::external_type_specification]
#[verifier::external_body]
pub struct ExTable(Table);

#[verifier::external_type_specification]
#[verifier::external_body]
pub struct ExItem(Item);

#[verifier::external_type_specification]
#[verifier::external_body]
pub struct ExTomlError(TomlError);

/// What an item of a TOML document holds, as far as this library reads it.
/// `Absent` stands for `toml_edit`'s placeholder `Item::None`, which no lookup
/// returns; `Other` stands for inline tables, arrays, numbers and dates.
pub enum TomlValue {
    Absent,
    Nested(Map<Seq<char>, TomlValue>),
    Text(Seq<char>),
    Flag(bool),
    Other,
}

/// The visible entries of a `toml_edit::Table`: each key whose item is not
/// `Item::None`, with what that item holds.
pub uninterp spec fn toml_table_entries(table: Table) -> Map<Seq<char>, TomlValue>;

/// The visible entries of the root table of a `toml_edit::DocumentMut`.
pub uninterp spec fn toml_document_entries(doc: DocumentMut) -> Map<Seq<char>, TomlValue>;

/// What a `toml_edit::Item` holds.
pub uninterp spec fn toml_item_value(item: Item) -> TomlValue;

/// The root entries of the document that `toml_edit` parses from `text`, or
/// `None` where it reports a syntax error.
pub uninterp spec fn toml_parse_entries(text: Seq<char>) -> Option<Map<Seq<char>, TomlValue>>;

/// The text that `toml_edit` renders for a document (its `Display`).
pub uninterp spec fn toml_document_text(doc: DocumentMut) -> Seq<char>;

/// A table without entries.
pub open spec fn empty_entries() -> Map<Seq<char>, TomlValue> {
    Map::empty()
}

/// The entries after `key` is assigned an item holding `v`: an `Absent` item
/// hides the key, any other item replaces or adds it.
pub open spec fn entries_after_set(
    entries: Map<Seq<char>, TomlValue>,
    key: Seq<char>,
    v: TomlValue,
) -> Map<Seq<char>, TomlValue> {
    if v is Absent {
        entries.remove(key)
    } else {
        entries.insert(key, v)
    }
}

/// `DocumentMut::new`: an empty document (its root is an empty table).
#[verifier::external_body]
pub(crate) fn new_document() -> (created: DocumentMut)
    ensures
        toml_document_entries(created) == empty_entries(),
{
    DocumentMut::new()
}

/// `DocumentMut::as_table`: the root table, whose entries are the document's.
pub assume_specification<'a>[ DocumentMut::as_table ](doc: &'a DocumentMut) -> (t: &'a Table)
    ensures
        toml_table_entries(*t) == toml_document_entries(*doc),
;

/// `Table::get`: the item under `key`, absent exactly where the table has no
/// visible entry for it (`Item::None` entries are filtered out).
pub assume_specification<'a>[ Table::get ](t: &'a Table, key: &str) -> (r: Option<&'a Item>)
    ensures
        r is Some <==> toml_table_entries(*t).contains_key(key@),
        r matches Some(item) ==> toml_item_value(*item) == toml_table_entries(*t)[key@],
;

/// `Item::as_table`: the table an `Item::Table` holds; `None` for every other item.
pub assume_specification<'a>[ Item::as_table ](item: &'a Item) -> (r: Option<&'a Table>)
    ensures
        r is Some <==> toml_item_value(*item) is Nested,
        r matches Some(t) ==> toml_item_value(*item) == TomlValue::Nested(toml_table_entries(*t)),
;

/// `Item::as_str`: the string a string value holds; `None` for every other item.
pub assume_specification<'a>[ Item::as_str ](item: &'a Item) -> (r: Option<&'a str>)
    ensures
        r is Some <==> toml_item_value(*item) is Text,
        r matches Some(s) ==> toml_item_value(*item) == TomlValue::Text(s@),
;

/// `Item::as_bool`: the boolean a boolean value holds; `None` for every other item.
pub assume_specification[ Item::as_bool ](item: &Item) -> (r: Option<bool>)
    ensures
        r is Some <==> toml_item_value(*item) is Flag,
        r matches Some(b) ==> toml_item_value(*item) == TomlValue::Flag(b),
;

/// `Table::clone` (derived): a copy with the same entries.
pub assume_specification[ <Table as Clone>::clone ](t: &Table) -> (r: Table)
    ensures
        toml_table_entries(r) == toml_table_entries(*t),
;

/// `Table::new`: a new table without entries.
#[verifier::external_body]
pub(crate) fn new_table() -> (created: Table)
    ensures
        toml_table_entries(created) == empty_entries(),
{
    Table::new()
}

/// `toml_edit::value(&str)`: an item holding the string.
#[verifier::external_body]
pub(crate) fn string_item(s: &str) -> (item: Item)
    ensures
        toml_item_value(item) == TomlValue::Text(s@),
{
    toml_edit::value(s)
}

/// `toml_edit::value(bool)`: an item holding the boolean.
#[verifier::external_body]
pub(crate) fn bool_item(b: bool) -> (item: Item)
    ensures
        toml_item_value(item) == TomlValue::Flag(b),
{
    toml_edit::value(b)
}

/// `toml_edit::table()`: an item holding a new, empty table.
#[verifier::external_body]
pub(crate) fn empty_table_item() -> (item: Item)
    ensures
        toml_item_value(item) == TomlValue::Nested(empty_entries()),
{
    toml_edit::table()
}

/// `Item::Table(t)`: an item holding the table `t`.
#[verifier::external_body]
pub(crate) fn table_item(t: Table) -> (item: Item)
    ensures
        toml_item_value(item) == TomlValue::Nested(toml_table_entries(t)),
{
    Item::Table(t)
}

/// `table[key] = item` (`IndexMut` on `Table`): the entry for `key` is created
/// where missing and then holds `item`; no other entry changes.
#[verifier::external_body]
pub(crate) fn set_table_entry(t: &mut Table, key: &str, item: Item)
    ensures
        toml_table_entries(*final(t)) == entries_after_set(
            toml_table_entries(*old(t)),
            key@,
            toml_item_value(item),
        ),
{
    t[key] = item;
}

/// `doc[key] = item` (`IndexMut` on `DocumentMut`, which indexes its root table).
#[verifier::external_body]
pub(crate) fn set_document_entry(doc: &mut DocumentMut, key: &str, item: Item)
    ensures
        toml_document_entries(*final(doc)) == entries_after_set(
            toml_document_entries(*old(doc)),
            key@,
            toml_item_value(item),
        ),
{
    doc[key] = item;
}

/// `text.parse::<DocumentMut>()`: the parsed document, or `toml_edit`'s error.
#[verifier::external_body]
pub(crate) fn parse_document(text: &str) -> (res: Result<DocumentMut, TomlError>)
    ensures
        res is Ok <==> toml_parse_entries(text@) is Some,
        res matches Ok(doc) ==> toml_parse_entries(text@) == Some(toml_document_entries(doc)),
{
    text.parse::<DocumentMut>()
}

/// `doc.to_string()`: the document rendered as TOML text.
#[verifier::external_body]
pub(crate) fn render_document(doc: &DocumentMut) -> (res: String)
    ensures
        res@ == toml_document_text(*doc),
{
    doc.to_string()
}

} // verus!
