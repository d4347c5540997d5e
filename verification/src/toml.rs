//! The configuration document, kept by `toml_edit`.
//!
//! Nothing here is proved: each function below hands its work to `toml_edit`,
//! and its contract records what that crate does. The rest of the library
//! reasons from these contracts alone.

use toml_edit::DocumentMut;
use toml_edit::Item;
use toml_edit::TomlError;
use toml_edit::Value;
use vstd::prelude::*;

verus! {

/// What a document holds under one key, as far as a configuration reads it.
#[derive(Clone, Debug, PartialEq, Eq)]
pub enum Field {
    /// An integer.
    Integer(i64),
    /// A string.
    Text(String),
    /// Anything else: a float, a boolean, a date, an array or a table.
    Other,
}

/// The mathematical value of a [`Field`].
pub enum Entry {
    Integer(i64),
    Text(Seq<char>),
    Other,
}

impl View for Field {
    type V = Entry;

    open spec fn view(&self) -> Entry {
        match self {
            Field::Integer(i) => Entry::Integer(*i),
            Field::Text(s) => Entry::Text(s@),
            Field::Other => Entry::Other,
        }
    }
}

/// A document that holds nothing.
pub open spec fn no_entries() -> Map<Seq<char>, Entry> {
    Map::empty()
}

/// `toml_edit::DocumentMut`, a document that can be read and changed. The
/// library sees nothing inside it, only what the functions below say.
#[verifier::external_type_specification]
#[verifier::external_body]
pub struct ExDocumentMut(DocumentMut);

/// `toml_edit::TomlError`, why a text was refused. The library only learns
/// that there is one.
#[verifier::external_type_specification]
#[verifier::external_body]
pub struct ExTomlError(TomlError);

/// The top-level entries of a document: for each key under which
/// `Table::get` finds an item, what that item is.
pub uninterp spec fn document_entries(doc: DocumentMut) -> Map<Seq<char>, Entry>;

/// The text that a document is written out as.
pub uninterp spec fn document_text(doc: DocumentMut) -> Seq<char>;

/// The top-level entries that `toml_edit` reads from a text, or `None` where
/// it refuses the text.
pub uninterp spec fn parsed_entries(text: Seq<char>) -> Option<Map<Seq<char>, Entry>>;

/// `DocumentMut::from_str`: parses a text. The entries of the document that
/// comes back are the text's entries; an error comes back exactly where the
/// text has none.
#[verifier::external_body]
pub(crate) fn parse_document(text: &str) -> (res: Result<DocumentMut, TomlError>)
    ensures
        match res {
            Ok(doc) => parsed_entries(text@) == Some(document_entries(doc)),
            Err(_) => parsed_entries(text@) is None,
        },
{
    text.parse::<DocumentMut>()
}

/// `Table::get` on the document's root table: the item under `key`, handed
/// out as a [`Field`], or `None` where the document has no such key.
#[verifier::external_body]
pub(crate) fn document_field(doc: &DocumentMut, key: &str) -> (res: Option<Field>)
    ensures
        match res {
            Some(field) => document_entries(*doc).contains_key(key@) && document_entries(
                *doc,
            )[key@] == field@,
            None => !document_entries(*doc).contains_key(key@),
        },
{
    match doc.get(key) {
        None => None,
        Some(Item::Value(Value::Integer(i))) => Some(Field::Integer(*i.value())),
        Some(Item::Value(Value::String(s))) => Some(Field::Text(s.value().clone())),
        Some(_) => Some(Field::Other),
    }
}

/// `DocumentMut::new`: a document without entries.
#[verifier::external_body]
pub(crate) fn new_document() -> (res: DocumentMut)
    ensures
        document_entries(res) == no_entries(),
{
    DocumentMut::new()
}

/// Index assignment on a document with `toml_edit::value` of an integer: the
/// document then holds that integer under `key`, and its other entries as
/// before.
#[verifier::external_body]
pub(crate) fn set_integer(doc: &mut DocumentMut, key: &str, value: i64)
    ensures
        document_entries(*final(doc)) == document_entries(*old(doc)).insert(
            key@,
            Entry::Integer(value),
        ),
{
    doc[key] = toml_edit::value(value);
}

/// Index assignment on a document with `toml_edit::value` of a string: the
/// document then holds that string under `key`, and its other entries as
/// before.
#[verifier::external_body]
pub(crate) fn set_text(doc: &mut DocumentMut, key: &str, value: &str)
    ensures
        document_entries(*final(doc)) == document_entries(*old(doc)).insert(
            key@,
            Entry::Text(value@),
        ),
{
    doc[key] = toml_edit::value(value);
}

/// `DocumentMut`'s `Display`: the document written out as text.
#[verifier::external_body]
pub(crate) fn render_document(doc: &DocumentMut) -> (text: String)
    ensures
        text@ == document_text(*doc),
{
    doc.to_string()
}

} // verus!
