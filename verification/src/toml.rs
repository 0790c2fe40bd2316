//! TOML documents, by the parts of them that the application reads and writes.

use vstd::prelude::*;

verus! {

/// A TOML item as a mathematical value. Of anything but a text, a truth value
/// and a table, only its TOML text counts.
pub enum TomlView {
    Text(Seq<char>),
    Bool(bool),
    Table(Map<Seq<char>, TomlView>),
    Inline(Map<Seq<char>, TomlView>),
    Other(Seq<char>),
    Nothing,
}

impl TomlView {
    /// The text of an item that is one.
    pub open spec fn as_text(self) -> Option<Seq<char>> {
        match self {
            TomlView::Text(text) => Some(text),
            _ => None,
        }
    }

    /// The entries of an item that is a table of its own.
    pub open spec fn as_table(self) -> Option<Map<Seq<char>, TomlView>> {
        match self {
            TomlView::Table(entries) => Some(entries),
            _ => None,
        }
    }
}

/// The entry of a table, where there is one.
pub open spec fn entry(entries: Map<Seq<char>, TomlView>, key: Seq<char>) -> Option<TomlView> {
    if entries.contains_key(key) {
        Some(entries[key])
    } else {
        None
    }
}

/// The text of an entry, where it is one.
pub open spec fn text_entry(entries: Map<Seq<char>, TomlView>, key: Seq<char>) -> Option<Seq<char>> {
    match entry(entries, key) {
        Some(item) => item.as_text(),
        None => None,
    }
}

/// The entries of an entry that is a table of its own.
pub open spec fn table_entry(entries: Map<Seq<char>, TomlView>, key: Seq<char>) -> Option<
    Map<Seq<char>, TomlView>,
> {
    match entry(entries, key) {
        Some(item) => item.as_table(),
        None => None,
    }
}

/// A table without entries.
pub open spec fn no_entries() -> Map<Seq<char>, TomlView> {
    Map::empty()
}

#[verifier::external_type_specification]
#[verifier::external_body]
pub struct ExDocumentMut(toml_edit::DocumentMut);

#[verifier::external_type_specification]
#[verifier::external_body]
pub struct ExTable(toml_edit::Table);

#[verifier::external_type_specification]
#[verifier::external_body]
pub struct ExInlineTable(toml_edit::InlineTable);

#[verifier::external_type_specification]
#[verifier::external_body]
pub struct ExItem(toml_edit::Item);

/// What a document holds.
pub uninterp spec fn document_view(document: toml_edit::DocumentMut) -> Map<Seq<char>, TomlView>;

/// A document as text, with its comments and its layout.
pub uninterp spec fn document_text(document: toml_edit::DocumentMut) -> Seq<char>;

/// What a table holds.
pub uninterp spec fn table_view(table: toml_edit::Table) -> Map<Seq<char>, TomlView>;

/// What an inline table holds.
pub uninterp spec fn inline_view(table: toml_edit::InlineTable) -> Map<Seq<char>, TomlView>;

/// What an item is.
pub uninterp spec fn item_view(item: toml_edit::Item) -> TomlView;

/// What a text holds as a TOML document, or what is wrong with it.
pub uninterp spec fn parsed_toml(source: Seq<char>) -> Result<Map<Seq<char>, TomlView>, Seq<char>>;

/// What a document holds, where there is one.
pub open spec fn document_result(
    outcome: Result<toml_edit::DocumentMut, String>,
) -> Result<Map<Seq<char>, TomlView>, Seq<char>> {
    match outcome {
        Ok(document) => Ok(document_view(document)),
        Err(message) => Err(message@),
    }
}

/// `<toml_edit::DocumentMut as FromStr>::from_str`, by `str::parse`: reads a
/// document. The outcome is a function of the text. The error comes in the
/// words of its `Display`.
#[verifier::external_body]
pub(crate) fn parse_document(source: &str) -> (outcome: Result<toml_edit::DocumentMut, String>)
    ensures
        document_result(outcome) == parsed_toml(source@),
{
    source.parse::<toml_edit::DocumentMut>().map_err(|error| error.to_string())
}

/// `toml_edit::DocumentMut::new`: a document without entries.
#[verifier::external_body]
pub(crate) fn new_document() -> (document: toml_edit::DocumentMut)
    ensures
        document_view(document) == no_entries(),
{
    toml_edit::DocumentMut::new()
}

/// `<toml_edit::DocumentMut as Display>::fmt`, by `to_string`: the document as
/// text, a function of the document.
#[verifier::external_body]
pub(crate) fn render_document(document: &toml_edit::DocumentMut) -> (text: String)
    ensures
        text@ == document_text(*document),
{
    document.to_string()
}

/// `toml_edit::DocumentMut::as_table`: the root table, which holds what the
/// document holds.
#[verifier::external_body]
pub(crate) fn root(document: &toml_edit::DocumentMut) -> (table: &toml_edit::Table)
    ensures
        table_view(*table) == document_view(*document),
{
    document.as_table()
}

/// `toml_edit::DocumentMut::as_table_mut`: the root table; what is changed in
/// it is changed in the document.
#[verifier::external_body]
pub(crate) fn root_mut(document: &mut toml_edit::DocumentMut) -> (table: &mut toml_edit::Table)
    ensures
        table_view(*table) == document_view(*old(document)),
        document_view(*final(document)) == table_view(*final(table)),
{
    document.as_table_mut()
}

/// `toml_edit::Table::new`: a table without entries.
#[verifier::external_body]
pub(crate) fn new_table() -> (table: toml_edit::Table)
    ensures
        table_view(table) == no_entries(),
{
    toml_edit::Table::new()
}

/// `toml_edit::Table::get`: the entry under a key. An item that stands for
/// nothing is no entry.
#[verifier::external_body]
pub(crate) fn table_get<'a>(table: &'a toml_edit::Table, key: &str) -> (item: Option<
    &'a toml_edit::Item,
>)
    ensures
        item is Some <==> table_view(*table).contains_key(key@),
        item matches Some(item) ==> item_view(*item) == table_view(*table)[key@],
        item matches Some(item) ==> !(item_view(*item) is Nothing),
{
    table.get(key)
}

/// `toml_edit::Table::get_mut`: the entry under a key; what is made of it, if
/// it still is something, stands under the key afterwards.
#[verifier::external_body]
pub(crate) fn table_get_mut<'a>(table: &'a mut toml_edit::Table, key: &str) -> (item: Option<
    &'a mut toml_edit::Item,
>)
    ensures
        item is Some <==> table_view(*old(table)).contains_key(key@),
        item matches Some(item) ==> item_view(*item) == table_view(*old(table))[key@],
        item matches Some(item) ==> !(item_view(*item) is Nothing),
        item matches Some(item) ==> (item_view(*final(item)) is Nothing || table_view(*final(table))
            == table_view(*old(table)).insert(key@, item_view(*final(item)))),
        item is None ==> *final(table) == *old(table),
{
    table.get_mut(key)
}

/// `toml_edit::Table::insert`: puts an entry in place, in its usual layout.
#[verifier::external_body]
pub(crate) fn table_insert(table: &mut toml_edit::Table, key: &str, item: toml_edit::Item)
    requires
        !(item_view(item) is Nothing),
    ensures
        table_view(*final(table)) == table_view(*old(table)).insert(key@, item_view(item)),
{
    table.insert(key, item);
}

/// `<toml_edit::Table as IndexMut<&str>>::index_mut`, assigned to: puts an
/// entry in place, under the key as it is written.
#[verifier::external_body]
pub(crate) fn table_set(table: &mut toml_edit::Table, key: &str, item: toml_edit::Item)
    requires
        !(item_view(item) is Nothing),
    ensures
        table_view(*final(table)) == table_view(*old(table)).insert(key@, item_view(item)),
{
    table[key] = item;
}

/// `toml_edit::Table::remove`: takes an entry away, where there is one.
#[verifier::external_body]
pub(crate) fn table_remove(table: &mut toml_edit::Table, key: &str)
    ensures
        table_view(*final(table)) == table_view(*old(table)).remove(key@),
{
    table.remove(key);
}

/// `toml_edit::Table::contains_key`: whether there is an entry.
#[verifier::external_body]
pub(crate) fn table_contains(table: &toml_edit::Table, key: &str) -> (found: bool)
    ensures
        found == table_view(*table).contains_key(key@),
{
    table.contains_key(key)
}

/// `toml_edit::Table::is_empty`: whether there is no entry.
#[verifier::external_body]
pub(crate) fn table_is_empty(table: &toml_edit::Table) -> (empty: bool)
    ensures
        empty == (table_view(*table) == no_entries()),
{
    table.is_empty()
}

/// `toml_edit::Table::iter`: the entries, by their keys, each once.
#[verifier::external_body]
pub(crate) fn table_keys(table: &toml_edit::Table) -> (keys: Vec<String>)
    ensures
        forall|i: int|
            0 <= i < keys.len() ==> table_view(*table).contains_key(#[trigger] keys@[i]@),
        forall|key: Seq<char>| #[trigger]
            table_view(*table).contains_key(key) ==> (exists|i: int|
                0 <= i < keys.len() && #[trigger] keys@[i]@ == key),
        forall|i: int, j: int|
            0 <= i < j < keys.len() ==> #[trigger] keys@[i]@ != #[trigger] keys@[j]@,
{
    table.iter().map(|(key, _)| key.to_owned()).collect()
}

/// `toml_edit::value` of a text: an item that is this text.
#[verifier::external_body]
pub(crate) fn text_item(text: &str) -> (item: toml_edit::Item)
    ensures
        item_view(item) == TomlView::Text(text@),
{
    toml_edit::value(text)
}

/// `toml_edit::value` of a truth value: an item that is this truth value.
#[verifier::external_body]
pub(crate) fn bool_item(value: bool) -> (item: toml_edit::Item)
    ensures
        item_view(item) == TomlView::Bool(value),
{
    toml_edit::value(value)
}

/// `toml_edit::Item::Table`: an item that is a table of its own.
#[verifier::external_body]
pub(crate) fn table_item(table: toml_edit::Table) -> (item: toml_edit::Item)
    ensures
        item_view(item) == TomlView::Table(table_view(table)),
{
    toml_edit::Item::Table(table)
}

/// `<toml_edit::Item as Clone>::clone`: the same item once more.
#[verifier::external_body]
pub(crate) fn clone_item(item: &toml_edit::Item) -> (copy: toml_edit::Item)
    ensures
        item_view(copy) == item_view(*item),
{
    item.clone()
}

/// `toml_edit::Item::as_str`: the text of an item that is one.
#[verifier::external_body]
pub(crate) fn item_text(item: &toml_edit::Item) -> (text: Option<&str>)
    ensures
        crate::text::text_of(text) == item_view(*item).as_text(),
{
    item.as_str()
}

/// `toml_edit::Item::as_table`: the table of an item that is a table of its
/// own.
#[verifier::external_body]
pub(crate) fn item_table(item: &toml_edit::Item) -> (table: Option<&toml_edit::Table>)
    ensures
        table is Some <==> item_view(*item) is Table,
        table matches Some(table) ==> item_view(*item) == TomlView::Table(table_view(*table)),
{
    item.as_table()
}

/// `toml_edit::Item::as_table_mut`: the table of an item that is a table of
/// its own; what is changed in it is changed in the item.
#[verifier::external_body]
pub(crate) fn item_table_mut(item: &mut toml_edit::Item) -> (table: Option<&mut toml_edit::Table>)
    ensures
        table is Some <==> item_view(*old(item)) is Table,
        table matches Some(table) ==> item_view(*old(item)) == TomlView::Table(table_view(*table)),
        table matches Some(table) ==> item_view(*final(item)) == TomlView::Table(
            table_view(*final(table)),
        ),
        table is None ==> *final(item) == *old(item),
{
    item.as_table_mut()
}

/// `toml_edit::Item::as_inline_table`: the table of an item that is an inline
/// table.
#[verifier::external_body]
pub(crate) fn item_inline(item: &toml_edit::Item) -> (table: Option<&toml_edit::InlineTable>)
    ensures
        table is Some <==> item_view(*item) is Inline,
        table matches Some(table) ==> item_view(*item) == TomlView::Inline(inline_view(*table)),
{
    item.as_inline_table()
}

/// `toml_edit::Item::as_inline_table_mut`: the table of an item that is an
/// inline table; what is changed in it is changed in the item.
#[verifier::external_body]
pub(crate) fn item_inline_mut(item: &mut toml_edit::Item) -> (table: Option<
    &mut toml_edit::InlineTable,
>)
    ensures
        table is Some <==> item_view(*old(item)) is Inline,
        table matches Some(table) ==> item_view(*old(item)) == TomlView::Inline(
            inline_view(*table),
        ),
        table matches Some(table) ==> item_view(*final(item)) == TomlView::Inline(
            inline_view(*final(table)),
        ),
        table is None ==> *final(item) == *old(item),
{
    item.as_inline_table_mut()
}

/// `toml_edit::InlineTable::insert` of a text: puts it in place under a key.
#[verifier::external_body]
pub(crate) fn inline_insert_text(table: &mut toml_edit::InlineTable, key: &str, text: &str)
    ensures
        inline_view(*final(table)) == inline_view(*old(table)).insert(
            key@,
            TomlView::Text(text@),
        ),
{
    table.insert(key, toml_edit::Value::from(text));
}

/// `toml_edit::InlineTable::remove`: takes an entry away, where there is one.
#[verifier::external_body]
pub(crate) fn inline_remove(table: &mut toml_edit::InlineTable, key: &str)
    ensures
        inline_view(*final(table)) == inline_view(*old(table)).remove(key@),
{
    table.remove(key);
}

/// `toml_edit::InlineTable::contains_key`: whether there is an entry.
#[verifier::external_body]
pub(crate) fn inline_contains(table: &toml_edit::InlineTable, key: &str) -> (found: bool)
    ensures
        found == inline_view(*table).contains_key(key@),
{
    table.contains_key(key)
}

/// `toml_edit::InlineTable::is_empty`: whether there is no entry.
#[verifier::external_body]
pub(crate) fn inline_is_empty(table: &toml_edit::InlineTable) -> (empty: bool)
    ensures
        empty == (inline_view(*table) == no_entries()),
{
    table.is_empty()
}

/// `toml_edit::InlineTable::iter`: the entries, each once, their values
/// cloned. Inline tables hold values only.
#[verifier::external_body]
pub(crate) fn inline_entries(table: &toml_edit::InlineTable) -> (entries: Vec<
    (String, toml_edit::Item),
>)
    ensures
        forall|i: int|
            0 <= i < entries.len() ==> inline_view(*table).contains_key(
                #[trigger] entries@[i].0@,
            ) && inline_view(*table)[entries@[i].0@] == item_view(entries@[i].1),
        forall|i: int|
            0 <= i < entries.len() ==> !(item_view((#[trigger] entries@[i]).1) is Nothing),
        forall|key: Seq<char>| #[trigger]
            inline_view(*table).contains_key(key) ==> (exists|i: int|
                0 <= i < entries.len() && #[trigger] entries@[i].0@ == key),
        forall|i: int, j: int|
            0 <= i < j < entries.len() ==> #[trigger] entries@[i].0@ != #[trigger] entries@[j].0@,
{
    table.iter().map(|(key, value)| (key.to_owned(), toml_edit::Item::Value(value.clone()))).collect()
}

} // verus!
