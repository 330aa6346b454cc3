//! The configuration document: a TOML text of which one field, the string
//! `bridges` of the table `bridges`, is set or removed, all else left as it
//! is. The document itself is kept by `toml_edit`.

use crate::bridges::{
    bridge_lines, bridges_text, bridges_value, is_bridge_line, lemma_stored_bridges_round_trip,
    lemma_stored_lines_round_trip,
};
use crate::text::{is_single_line, text_lines};
use toml_edit::{DocumentMut, TomlError};
use vstd::prelude::*;

verus! {

/// The table that holds the bridges field.
pub const BRIDGES_TABLE: &'static str = "bridges";

/// The key of the bridges field in its table.
pub const BRIDGES_KEY: &'static str = "bridges";

/// A field of a table, as the contracts read it.
pub enum Field {
    /// A string, by its characters.
    Text(Seq<char>),
    /// Any other item, by the text that it is written as.
    Other(Seq<char>),
}

/// What stands under a key of the root table, as the contracts read it.
pub enum Slot {
    /// A table or an inline table, by its fields.
    Table(Map<Seq<char>, Field>),
    /// Any other item, by the text that it is written as.
    Other(Seq<char>),
}

/// What the contracts read in a document: what stands under each key of its
/// root table.
pub type Tables = Map<Seq<char>, Slot>;

/// `DocumentMut` of toml_edit: an editable TOML document. Nothing inside it
/// is seen here; the contracts speak of it through `doc_tables` and `doc_text`.
#[verifier::external_type_specification]
#[verifier::external_body]
pub struct ExDocumentMut(DocumentMut);

/// `TomlError` of toml_edit: why a text was refused. Only its message is
/// taken from it.
#[verifier::external_type_specification]
#[verifier::external_body]
pub struct ExTomlError(TomlError);

/// What `toml_edit` reads in `text`: `None` where it refuses the text as a
/// TOML document, else what the document parsed from it holds.
pub uninterp spec fn toml_tables(text: Seq<char>) -> Option<Tables>;

/// What `doc` holds. A key is in the map where `get` on the root table gives
/// an item for it. The item is a `Table` where it is a table or an inline
/// table, with a field for each key for which that table's `get` gives an
/// item other than none: `Text` with the value of a string, `Other` with
/// what `Display` writes for any other item. An item of the root that is no
/// table is `Other` with what `Display` writes for it.
pub uninterp spec fn doc_tables(doc: DocumentMut) -> Tables;

/// The text that `doc` is written as.
pub uninterp spec fn doc_text(doc: DocumentMut) -> Seq<char>;

/// What stands under `table` at the root: `None` for nothing, else whether it
/// is a table.
pub open spec fn slot_of(tables: Tables, table: Seq<char>) -> Option<bool> {
    if tables.contains_key(table) {
        Some(tables[table] is Table)
    } else {
        None
    }
}

/// The fields of the table `table`; none where there is no such table.
pub open spec fn fields_of(tables: Tables, table: Seq<char>) -> Map<Seq<char>, Field> {
    if tables.contains_key(table) && tables[table] is Table {
        tables[table]->Table_0
    } else {
        Map::empty()
    }
}

/// The field `table.key`, if the document holds one.
pub open spec fn field_at(tables: Tables, table: Seq<char>, key: Seq<char>) -> Option<Field> {
    if fields_of(tables, table).contains_key(key) {
        Some(fields_of(tables, table)[key])
    } else {
        None
    }
}

/// The string `table.key`, if the document holds one.
pub open spec fn string_at(tables: Tables, table: Seq<char>, key: Seq<char>) -> Option<Seq<char>> {
    match field_at(tables, table, key) {
        Some(Field::Text(value)) => Some(value),
        _ => None,
    }
}

/// `tables` once `table.key` is set to the string `value`; the table is made
/// where it was missing.
pub open spec fn with_field(
    tables: Tables,
    table: Seq<char>,
    key: Seq<char>,
    value: Seq<char>,
) -> Tables {
    tables.insert(table, Slot::Table(fields_of(tables, table).insert(key, Field::Text(value))))
}

/// `tables` once the key `table.key` is removed; the table stays.
pub open spec fn without_field(tables: Tables, table: Seq<char>, key: Seq<char>) -> Tables {
    if tables.contains_key(table) && tables[table] is Table {
        tables.insert(table, Slot::Table(fields_of(tables, table).remove(key)))
    } else {
        tables
    }
}

/// `DocumentMut::from_str` of toml_edit, called as `str::parse`: the text is
/// refused or read as a document, and which of the two, with what the
/// document holds, depends on the text alone.
#[verifier::external_body]
fn parse_document(text: &str) -> (res: Result<DocumentMut, TomlError>)
    ensures
        match res {
            Ok(doc) => toml_tables(text@) == Some(doc_tables(doc)),
            Err(_) => toml_tables(text@) is None,
        },
{
    text.parse::<DocumentMut>()
}

/// `Display` of toml_edit's `TomlError`: the parser's message, of which
/// nothing is claimed.
#[verifier::external_body]
fn parse_error_text(error: &TomlError) -> (message: String) {
    error.to_string()
}

/// `Table::get` on the root table of the document and `Item::is_table_like`
/// of toml_edit: whether anything stands under `table`, and if so whether it
/// is a table or an inline table.
#[verifier::external_body]
fn table_slot(doc: &DocumentMut, table: &str) -> (slot: Option<bool>)
    ensures
        slot == slot_of(doc_tables(*doc), table@),
{
    doc.get(table).map(|item| item.is_table_like())
}

/// `Item::get` and `Item::as_str` of toml_edit, below the root table: the
/// string `table.key`, if the document holds one.
#[verifier::external_body]
fn get_string(doc: &DocumentMut, table: &str, key: &str) -> (value: Option<String>)
    ensures
        match value {
            Some(s) => string_at(doc_tables(*doc), table@, key@) == Some(s@),
            None => string_at(doc_tables(*doc), table@, key@) is None,
        },
{
    doc.get(table).and_then(|item| item.get(key)).and_then(|item| item.as_str()).map(String::from)
}

/// `IndexMut` of toml_edit's `DocumentMut` and `Item`, with `value`:
/// `doc[table][key] = value(..)`. Where nothing stands under `table` an inline
/// table is made there. The index panics where something else than a table
/// stands there, hence the `requires`. Nothing under another key is touched.
#[verifier::external_body]
fn set_string(doc: &mut DocumentMut, table: &str, key: &str, value: &str)
    requires
        slot_of(doc_tables(*old(doc)), table@) != Some(false),
    ensures
        doc_tables(*final(doc)) == with_field(doc_tables(*old(doc)), table@, key@, value@),
{
    doc[table][key] = toml_edit::value(value);
}

/// `TableLike::remove` of toml_edit on the table or inline table under
/// `table`, reached by `Table::get_mut` and `Item::as_table_like_mut`: the key
/// leaves that table; where no table stands there nothing happens.
#[verifier::external_body]
fn remove_key(doc: &mut DocumentMut, table: &str, key: &str)
    ensures
        doc_tables(*final(doc)) == without_field(doc_tables(*old(doc)), table@, key@),
{
    doc.get_mut(table).and_then(|item| item.as_table_like_mut()).map(|entries| entries.remove(key));
}

/// `Display` of toml_edit's `DocumentMut`, called as `to_string`: the text of
/// the document.
#[verifier::external_body]
fn document_text(doc: &DocumentMut) -> (text: String)
    ensures
        text@ == doc_text(*doc),
{
    doc.to_string()
}

/// What is done to the bridges field.
#[derive(Debug, Clone, PartialEq, Eq)]
pub enum BridgesUpdate {
    /// The field is set to the stored text of these bridge lines.
    Replace(Vec<String>),
    /// The key is removed from its table.
    Delete,
}

/// Why a configuration text was not updated.
#[derive(Debug, Clone, PartialEq, Eq)]
pub enum ConfigError {
    /// The text is no TOML document; the parser's message is attached.
    Parse(String),
    /// `bridges` is in the document and is no table, so that it can hold no
    /// field.
    NotATable,
}

/// `tables` once the bridges field is set to the stored text of `lines`.
pub open spec fn stored(tables: Tables, lines: Seq<Seq<char>>) -> Tables {
    with_field(tables, BRIDGES_TABLE@, BRIDGES_KEY@, bridges_value(lines))
}

/// `tables` once the key of the bridges field is removed.
pub open spec fn cleared(tables: Tables) -> Tables {
    without_field(tables, BRIDGES_TABLE@, BRIDGES_KEY@)
}

/// `tables` after `update`.
pub open spec fn updated(tables: Tables, update: BridgesUpdate) -> Tables {
    match update {
        BridgesUpdate::Replace(lines) => stored(tables, lines.deep_view()),
        BridgesUpdate::Delete => cleared(tables),
    }
}

/// Whether `update` cannot be made on `tables`: a field is to be set where
/// `bridges` is no table.
pub open spec fn refused(tables: Tables, update: BridgesUpdate) -> bool {
    update is Replace && slot_of(tables, BRIDGES_TABLE@) == Some(false)
}

/// The bridges field of `tables`: its string, or `None` where the document
/// holds no such string.
pub open spec fn bridges_of(tables: Tables) -> Option<Seq<char>> {
    string_at(tables, BRIDGES_TABLE@, BRIDGES_KEY@)
}

/// Whether the key of the bridges field is in its table.
pub open spec fn has_bridges_key(tables: Tables) -> bool {
    field_at(tables, BRIDGES_TABLE@, BRIDGES_KEY@) is Some
}

/// Setting the field and reading it gives the stored text of the lines.
pub proof fn lemma_stored_is_read(tables: Tables, lines: Seq<Seq<char>>)
    ensures
        bridges_of(stored(tables, lines)) == Some(bridges_value(lines)),
{
}

/// Round trip: once the field is set to bridge lines, not none and each
/// without a line feed, the lines of the text read back from it are exactly
/// these lines, in their order.
pub proof fn lemma_replace_round_trip(tables: Tables, lines: Seq<Seq<char>>)
    requires
        lines.len() > 0,
        forall|i: int| 0 <= i < lines.len() ==> is_single_line(#[trigger] lines[i]),
    ensures
        bridges_of(stored(tables, lines)) matches Some(value) && text_lines(value) == lines,
{
    lemma_stored_lines_round_trip(lines);
}

/// Round trip through the reader: once the field is set to well-formed
/// bridge lines, the bridge lines of the text read back from it are exactly
/// these lines, in their order.
pub proof fn lemma_replace_read_bridges(tables: Tables, lines: Seq<Seq<char>>)
    requires
        forall|i: int| 0 <= i < lines.len() ==> is_bridge_line(#[trigger] lines[i]),
    ensures
        bridges_of(stored(tables, lines)) matches Some(value) && bridge_lines(value) == lines,
{
    lemma_stored_bridges_round_trip(lines);
}

/// Deletion: once the key is removed it is absent, whatever the document
/// held before; reading the field gives no string, not an empty one.
pub proof fn lemma_delete_removes_key(tables: Tables)
    ensures
        !has_bridges_key(cleared(tables)),
        bridges_of(cleared(tables)) is None,
{
}

/// An update touches the bridges field alone: every other field of every
/// table, and whatever stands under another key of the root, is as before.
pub proof fn lemma_update_is_field_scoped(
    tables: Tables,
    update: BridgesUpdate,
    table: Seq<char>,
    key: Seq<char>,
)
    requires
        !refused(tables, update),
    ensures
        table != BRIDGES_TABLE@ ==> (updated(tables, update).contains_key(table)
            <==> tables.contains_key(table)),
        table != BRIDGES_TABLE@ && tables.contains_key(table) ==> updated(tables, update)[table]
            == tables[table],
        table != BRIDGES_TABLE@ || key != BRIDGES_KEY@ ==> field_at(
            updated(tables, update),
            table,
            key,
        ) == field_at(tables, table, key),
{
}

/// Setting the field twice to the same lines is the same as setting it once.
pub proof fn lemma_replace_twice(tables: Tables, lines: Seq<Seq<char>>)
    ensures
        stored(stored(tables, lines), lines) == stored(tables, lines),
{
    let once = stored(tables, lines);
    assert(fields_of(once, BRIDGES_TABLE@).insert(
        BRIDGES_KEY@,
        Field::Text(bridges_value(lines)),
    ) == fields_of(once, BRIDGES_TABLE@));
    assert(stored(once, lines) == once);
}

/// An editable configuration document.
pub struct ConfigDocument {
    doc: DocumentMut,
}

impl ConfigDocument {
    /// What the document holds.
    pub closed spec fn tables(&self) -> Tables {
        doc_tables(self.doc)
    }

    /// The text that the document is written as.
    pub closed spec fn text(&self) -> Seq<char> {
        doc_text(self.doc)
    }

    /// The bridges field: its string, or `None` where the document holds no
    /// such string.
    pub open spec fn bridges_field(&self) -> Option<Seq<char>> {
        bridges_of(self.tables())
    }

    /// Reads `text` as a document, or says why it is none.
    pub fn parse(text: &str) -> (res: Result<ConfigDocument, ConfigError>)
        ensures
            match res {
                Ok(document) => toml_tables(text@) == Some(document.tables()),
                Err(error) => toml_tables(text@) is None && error is Parse,
            },
    {
        match parse_document(text) {
            Ok(doc) => Ok(ConfigDocument { doc }),
            Err(error) => Err(ConfigError::Parse(parse_error_text(&error))),
        }
    }

    /// The string of the bridges field, `None` where the document holds no
    /// such string.
    pub fn bridges(&self) -> (value: Option<String>)
        ensures
            match value {
                Some(s) => self.bridges_field() == Some(s@),
                None => self.bridges_field() is None,
            },
    {
        get_string(&self.doc, BRIDGES_TABLE, BRIDGES_KEY)
    }

    /// Makes `update` on the bridges field and on nothing else. It is refused,
    /// and the document left as it is, only where a field is to be set and
    /// `bridges` is no table.
    pub fn set_bridges(&mut self, update: &BridgesUpdate) -> (res: Result<(), ConfigError>)
        ensures
            res is Err <==> refused(old(self).tables(), *update),
            match res {
                Ok(_) => final(self).tables() == updated(old(self).tables(), *update),
                Err(error) => error is NotATable && *final(self) == *old(self),
            },
    {
        match update {
            BridgesUpdate::Replace(lines) => {
                match table_slot(&self.doc, BRIDGES_TABLE) {
                    Some(false) => Err(ConfigError::NotATable),
                    _ => {
                        let value = bridges_text(lines);
                        set_string(&mut self.doc, BRIDGES_TABLE, BRIDGES_KEY, value.as_str());
                        Ok(())
                    },
                }
            },
            BridgesUpdate::Delete => {
                remove_key(&mut self.doc, BRIDGES_TABLE, BRIDGES_KEY);
                Ok(())
            },
        }
    }

    /// The text of the document.
    pub fn render(&self) -> (text: String)
        ensures
            text@ == self.text(),
    {
        document_text(&self.doc)
    }
}

/// Whether `text` is what a document that holds `tables` is written as.
pub open spec fn renders(tables: Tables, text: Seq<char>) -> bool {
    exists|document: ConfigDocument| document.tables() == tables && document.text() == text
}

/// The configuration text `text` with `update` made on its bridges field:
/// the text is read as a document, the field is set or removed, and the
/// document is written out again.
pub fn save_bridges_in_arti_log(text: &str, update: &BridgesUpdate) -> (res: Result<
    String,
    ConfigError,
>)
    ensures
        match res {
            Ok(saved) => toml_tables(text@) matches Some(tables) && !refused(tables, *update)
                && renders(updated(tables, *update), saved@),
            Err(ConfigError::Parse(_)) => toml_tables(text@) is None,
            Err(ConfigError::NotATable) => toml_tables(text@) matches Some(tables) && refused(
                tables,
                *update,
            ),
        },
{
    let mut document = ConfigDocument::parse(text)?;
    document.set_bridges(update)?;
    Ok(document.render())
}

} // verus!
