//! TOML documents, read and changed through `toml_edit`, which keeps comments
//! and layout. A document is opaque here; the names below say what it holds.

use vstd::prelude::*;

verus! {

/// `toml_edit::DocumentMut`, a TOML document with its layout, taken as opaque.
#[verifier::external_type_specification]
#[verifier::external_body]
pub struct ExTomlDocument(toml_edit::DocumentMut);

/// `toml_edit::Item`, a part of a TOML document, taken as opaque.
#[verifier::external_type_specification]
#[verifier::external_body]
pub struct ExTomlItem(toml_edit::Item);

/// `toml_edit::TomlError`, taken as opaque.
#[verifier::external_type_specification]
#[verifier::external_body]
pub struct ExTomlError(toml_edit::TomlError);

/// The document that a text denotes; `None` if the text is not TOML.
pub uninterp spec fn toml_document(text: Seq<char>) -> Option<toml_edit::DocumentMut>;

/// The item under a key at the top of a document, if there is one.
pub uninterp spec fn toml_root_item(document: toml_edit::DocumentMut, key: Seq<char>) -> Option<
    toml_edit::Item,
>;

/// The item under a key within a table, if the item is a table and has one.
pub uninterp spec fn toml_item(item: toml_edit::Item, key: Seq<char>) -> Option<toml_edit::Item>;

/// The text of a string; `None` if the item is no string.
pub uninterp spec fn toml_text(item: toml_edit::Item) -> Option<Seq<char>>;

/// The document written out.
pub uninterp spec fn toml_rendered(document: toml_edit::DocumentMut) -> Seq<char>;

/// The document with the entry `key` of the table `table` set to the string
/// `text`, and the rest of it, comments and layout too, as toml_edit leaves it.
pub uninterp spec fn toml_with_text(
    document: toml_edit::DocumentMut,
    table: Seq<char>,
    key: Seq<char>,
    text: Seq<char>,
) -> toml_edit::DocumentMut;

/// The text of the entry `key` of the table `table`, if the document has that
/// table, the table that entry, and the entry is a string.
pub open spec fn toml_entry_text(
    document: toml_edit::DocumentMut,
    table: Seq<char>,
    key: Seq<char>,
) -> Option<Seq<char>> {
    match toml_root_item(document, table) {
        Some(item) => match toml_item(item, key) {
            Some(entry) => toml_text(entry),
            None => None,
        },
        None => None,
    }
}

/// Whether `after` is `before` with the entry `key` of the table `table` set
/// to the string `text`: that entry has the text, and every other entry of
/// every table has the text it had, or none as before.
pub open spec fn entry_set(
    before: toml_edit::DocumentMut,
    after: toml_edit::DocumentMut,
    table: Seq<char>,
    key: Seq<char>,
    text: Seq<char>,
) -> bool {
    &&& toml_entry_text(after, table, key) == Some(text)
    &&& forall|t: Seq<char>, k: Seq<char>|
        (t != table || k != key) ==> #[trigger] toml_entry_text(after, t, k) == toml_entry_text(
            before,
            t,
            k,
        )
}

/// Parses a text as a `toml_edit::DocumentMut`, by its `FromStr`.
///
/// Not proved: that the outcome depends on the text alone, which is what
/// gives `toml_document` its meaning.
#[verifier::external_body]
pub(crate) fn parse_toml(text: &str) -> (r: Result<toml_edit::DocumentMut, toml_edit::TomlError>)
    ensures
        match r {
            Ok(document) => toml_document(text@) == Some(document),
            Err(_) => toml_document(text@) is None,
        },
{
    text.parse::<toml_edit::DocumentMut>()
}

/// The item under a key at the top of a document, by `toml_edit::Table::get`
/// on the document's root table.
///
/// Not proved: that the outcome depends on the document and the key alone.
#[verifier::external_body]
pub(crate) fn root_item<'a>(document: &'a toml_edit::DocumentMut, key: &str) -> (r: Option<
    &'a toml_edit::Item,
>)
    ensures
        match r {
            Some(item) => toml_root_item(*document, key@) == Some(*item),
            None => toml_root_item(*document, key@) is None,
        },
{
    document.get(key)
}

/// The item under a key within an item, by `toml_edit::Item::get` with a
/// string index.
///
/// Not proved: that the outcome depends on the item and the key alone.
#[verifier::external_body]
pub(crate) fn item_under<'a>(item: &'a toml_edit::Item, key: &str) -> (r: Option<
    &'a toml_edit::Item,
>)
    ensures
        match r {
            Some(entry) => toml_item(*item, key@) == Some(*entry),
            None => toml_item(*item, key@) is None,
        },
{
    item.get(key)
}

/// `toml_edit::Item::as_str` gives the text of a string and `None` for any
/// other item.
pub assume_specification<'a>[ toml_edit::Item::as_str ](item: &'a toml_edit::Item) -> (r: Option<
    &'a str,
>)
    ensures
        match r {
            Some(s) => toml_text(*item) == Some(s@),
            None => toml_text(*item) is None,
        },
;

/// Sets the entry `key` of the table `table` to a string, by indexing the
/// document mutably with both and assigning `toml_edit::value` of the text.
///
/// Not proved: that the outcome depends on the document, the two keys and
/// the text alone, and that afterwards that entry is a string with that
/// text and every other entry is as it was. The call is made only where the
/// table already has the entry, so that the indexing finds a table.
#[verifier::external_body]
pub(crate) fn set_entry_text(
    document: &mut toml_edit::DocumentMut,
    table: &str,
    key: &str,
    text: &str,
)
    requires
        toml_root_item(*old(document), table@) matches Some(item) && toml_item(item, key@) is Some,
    ensures
        *final(document) == toml_with_text(*old(document), table@, key@, text@),
        entry_set(*old(document), *final(document), table@, key@, text@),
{
    document[table][key] = toml_edit::value(text);
}

/// Writes a document out, by its `Display`.
///
/// Not proved: that the text written depends on the document alone.
#[verifier::external_body]
pub(crate) fn write_toml(document: &toml_edit::DocumentMut) -> (r: String)
    ensures
        r@ == toml_rendered(*document),
{
    document.to_string()
}

/// A copy of a document, by `Clone`.
///
/// Not proved: that the copy is the same document.
#[verifier::external_body]
pub(crate) fn copy_toml(document: &toml_edit::DocumentMut) -> (r: toml_edit::DocumentMut)
    ensures
        r == *document,
{
    document.clone()
}

/// The text of the entry `key` of the table `table`.
pub fn entry_text(document: &toml_edit::DocumentMut, table: &str, key: &str) -> (r: Option<String>)
    ensures
        match r {
            Some(s) => toml_entry_text(*document, table@, key@) == Some(s@),
            None => toml_entry_text(*document, table@, key@) is None,
        },
{
    match root_item(document, table) {
        Some(item) => match item_under(item, key) {
            Some(entry) => match entry.as_str() {
                Some(s) => Some(s.to_owned()),
                None => None,
            },
            None => None,
        },
        None => None,
    }
}

} // verus!
