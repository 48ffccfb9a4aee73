//! Setting the theme in the text of the config file, keeping its comments
//! and every other key, with `toml_edit`.
use vstd::prelude::*;
use toml_edit::{DocumentMut, Item, Table, TomlError, Value};

verus! {

#[verifier::external_type_specification]
#[verifier::external_body]
pub struct ExDocumentMut(DocumentMut);

#[verifier::external_type_specification]
#[verifier::external_body]
pub struct ExTomlError(TomlError);

/// What the top-level `ui` key of a config document holds.
#[derive(Debug, Clone, Copy, PartialEq, Eq, Structural)]
pub enum UiSlot {
    /// No `ui` key (or only an empty placeholder item).
    Absent,
    /// A `[ui]` table.
    Table,
    /// An inline table, `ui = { .. }`.
    InlineTable,
    /// Any other value, or an array of tables `[[ui]]`.
    Other,
}

/// What a document holds under its top-level `ui` key.
pub uninterp spec fn toml_ui_slot(doc: DocumentMut) -> UiSlot;

/// The string a document stores at `ui.theme`, if it stores one.
pub uninterp spec fn toml_ui_theme(doc: DocumentMut) -> Option<Seq<char>>;

/// The text `DocumentMut`'s `Display` writes for a document.
pub uninterp spec fn toml_document_text(doc: DocumentMut) -> Seq<char>;

/// The text a document prints (`Display`) once `ui.theme` is set to `name`
/// in it, `[ui]` being added first as a table of its own when the document
/// has no `ui` key. A function of what the document holds, so two documents
/// read from the same text give the same text here.
pub uninterp spec fn toml_themed_text(doc: DocumentMut, name: Seq<char>) -> Seq<char>;

/// Whether `text.parse::<DocumentMut>()` succeeds.
pub uninterp spec fn toml_parses(text: Seq<char>) -> bool;

/// What the document read from `text` holds under its top-level `ui` key.
pub uninterp spec fn toml_slot_of(text: Seq<char>) -> UiSlot;

/// The text printed by the document read from `text` once `ui.theme` is set
/// to `name` as `toml_themed_text` describes.
pub uninterp spec fn toml_text_after_theme(text: Seq<char>, name: Seq<char>) -> Seq<char>;

/// `text.parse::<toml_edit::DocumentMut>()`: the document with its
/// comments and layout, or the parser's error. Of the document read, the
/// contract states what can be observed of it through the names over the
/// text: its `ui` slot and what it prints once the theme is set. (Each parse
/// builds its tables with freshly seeded hash maps, so two parses of one
/// text are not the same value.)
#[verifier::external_body]
fn parse_document(text: &str) -> (r: Result<DocumentMut, TomlError>)
    ensures
        match r {
            Ok(d) => toml_parses(text@)
                && toml_ui_slot(d) == toml_slot_of(text@)
                && forall|n: Seq<char>| #[trigger] toml_themed_text(d, n) == toml_text_after_theme(text@, n),
            Err(_) => !toml_parses(text@),
        },
{
    text.parse::<DocumentMut>()
}

/// `DocumentMut::new()`, a document with no keys, which prints as nothing.
#[verifier::external_body]
fn new_document() -> (r: DocumentMut)
    ensures
        toml_ui_slot(r) == UiSlot::Absent,
        toml_ui_theme(r) is None,
        toml_document_text(r) == ""@,
{
    DocumentMut::new()
}

/// Which kind of item `doc.get("ui")` is.
#[verifier::external_body]
fn ui_slot(doc: &DocumentMut) -> (r: UiSlot)
    ensures
        r == toml_ui_slot(*doc),
{
    match doc.get("ui") {
        None => UiSlot::Absent,
        Some(Item::None) => UiSlot::Absent,
        Some(Item::Table(_)) => UiSlot::Table,
        Some(Item::Value(Value::InlineTable(_))) => UiSlot::InlineTable,
        Some(_) => UiSlot::Other,
    }
}

/// `doc["ui"] = Item::Table(t)` for a new, explicit (always written)
/// table `t`: `ui` is then an empty table.
#[verifier::external_body]
fn insert_ui_table(doc: &mut DocumentMut)
    requires
        toml_ui_slot(*old(doc)) == UiSlot::Absent,
    ensures
        forall|n: Seq<char>| #[trigger] toml_themed_text(*final(doc), n) == toml_themed_text(*old(doc), n),
        toml_ui_slot(*final(doc)) == UiSlot::Table,
        toml_ui_theme(*final(doc)) is None,
{
    let mut t = Table::new();
    t.set_implicit(false);
    doc["ui"] = Item::Table(t);
}

/// `doc["ui"]["theme"] = toml_edit::value(name)`: the `theme` entry of the
/// `ui` table (or inline table) becomes the string `name`. On any other
/// `ui` item the index panics, so that is left out.
#[verifier::external_body]
fn put_ui_theme(doc: &mut DocumentMut, name: &str)
    requires
        toml_ui_slot(*old(doc)) == UiSlot::Table || toml_ui_slot(*old(doc)) == UiSlot::InlineTable,
    ensures
        toml_document_text(*final(doc)) == toml_themed_text(*old(doc), name@),
        toml_ui_slot(*final(doc)) == toml_ui_slot(*old(doc)),
        toml_ui_theme(*final(doc)) == Some(name@),
{
    doc["ui"]["theme"] = toml_edit::value(name);
}

/// `doc.to_string()`.
#[verifier::external_body]
fn document_text(doc: &DocumentMut) -> (r: String)
    ensures
        r@ == toml_document_text(*doc),
{
    doc.to_string()
}

/// Sets `ui.theme` to `name`, first adding `[ui]` as a table of its own
/// when the document has no `ui` key.
pub fn set_ui_theme(doc: &mut DocumentMut, name: &str)
    requires
        toml_ui_slot(*old(doc)) != UiSlot::Other,
    ensures
        toml_document_text(*final(doc)) == toml_themed_text(*old(doc), name@),
        toml_ui_theme(*final(doc)) == Some(name@),
        toml_ui_slot(*final(doc)) == (if toml_ui_slot(*old(doc)) == UiSlot::Absent {
            UiSlot::Table
        } else {
            toml_ui_slot(*old(doc))
        }),
{
    if ui_slot(doc) == UiSlot::Absent {
        insert_ui_table(doc);
    }
    put_ui_theme(doc, name);
}

/// Why the config text could not take the theme.
pub enum WriteError {
    /// The existing text is not TOML.
    Parse(TomlError),
    /// Its `ui` key holds neither a table nor an inline table.
    UiNotATable,
}

/// The config file text with `ui.theme` set to `name`: `existing` (the
/// file's text, `None` when there is no file) read as a document, or an
/// empty document; `[ui]` added as a table when missing; the theme written,
/// and the document written back out as text. A text that is not TOML, or
/// whose `ui` is neither kind of table, is refused.
pub fn config_with_theme(existing: Option<&str>, name: &str) -> (r: Result<String, WriteError>)
    ensures
        match existing {
            Some(x) => if !toml_parses(x@) {
                r matches Err(WriteError::Parse(_))
            } else if toml_slot_of(x@) == UiSlot::Other {
                r matches Err(WriteError::UiNotATable)
            } else {
                r matches Ok(t) && t@ == toml_text_after_theme(x@, name@)
            },
            None => r matches Ok(t) && exists|d: DocumentMut|
                toml_document_text(d) == ""@ && toml_ui_slot(d) == UiSlot::Absent && toml_ui_theme(d) is None
                && t@ == #[trigger] toml_themed_text(d, name@),
        },
        r matches Ok(t) ==> exists|d: DocumentMut|
            t@ == toml_document_text(d) && #[trigger] toml_ui_theme(d) == Some(name@),
{
    let mut doc = match existing {
        Some(text) => match parse_document(text) {
            Ok(d) => d,
            Err(e) => {
                return Err(WriteError::Parse(e));
            },
        },
        None => new_document(),
    };
    let ghost d0 = doc;
    if ui_slot(&doc) == UiSlot::Other {
        return Err(WriteError::UiNotATable);
    }
    set_ui_theme(&mut doc, name);
    let t = document_text(&doc);
    assert(t@ == toml_themed_text(d0, name@));
    assert(t@ == toml_document_text(doc) && toml_ui_theme(doc) == Some(name@));
    Ok(t)
}

} // verus!
