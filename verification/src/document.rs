//! The editable TOML document the manifest is held in, and the operations
//! the library performs on it.
//!
//! The document is `toml_edit`'s and opaque to the verifier. What it holds
//! is spoken of through `document_nodes`, and each function of this file
//! that calls into `toml_edit` is taken on trust: its contract states what
//! the source of that crate shows of the call.

use std::str::FromStr;
use toml_edit::{Array, Document, Formatted, Item, Table, TomlError, Value};
use vstd::prelude::*;

verus! {

/// `toml_edit::Document`: a parsed TOML document that keeps the comments and
/// spacing of the text it was read from.
#[verifier::external_type_specification]
#[verifier::external_body]
pub struct ExDocument(toml_edit::Document);

/// `toml_edit::TomlError`: why a text is not a TOML document.
#[verifier::external_type_specification]
#[verifier::external_body]
pub struct ExTomlError(toml_edit::TomlError);

/// One value of an array.
pub enum Element {
    /// A string, with the prefix and the suffix of its decoration, the text
    /// written before and after it, where it was given any.
    Text { prefix: Option<Seq<char>>, text: Seq<char>, suffix: Option<Seq<char>> },
    /// A value of any other type.
    Other,
}

/// What a document holds under one key.
pub enum Node {
    /// A key without an item.
    Blank,
    /// A standard table; its own items are found under longer paths.
    Table,
    /// An array and its values, in order.
    Array(Seq<Element>),
    /// A string.
    Text(Seq<char>),
    /// Anything else: another scalar, an inline table, an array of tables.
    Other,
}

/// A sequence of keys leading from the root of a document through standard
/// tables to an item.
pub type KeyPath = Seq<Seq<char>>;

/// The items of `doc`, by their paths. A path of one key is there where the
/// root table has that key; a longer path is there where the path without
/// its last key holds a standard table (`Item::Table`) and that table has
/// the last key. The node at a path says what the key holds: `Blank` for
/// `Item::None`, `Table` for a standard table, `Array` for an array with
/// each of its values, `Text` for a string, `Other` for the rest.
pub uninterp spec fn document_nodes(doc: Document) -> Map<Seq<Seq<char>>, Node>;

/// The TOML text of `doc`, as `Document::to_string` writes it.
pub uninterp spec fn document_text(doc: Document) -> Seq<char>;

/// The items of the document that `Document::from_str` reads from `text`, or
/// `None` where it rejects the text.
pub uninterp spec fn parsed_nodes(text: Seq<char>) -> Option<Map<Seq<Seq<char>>, Node>>;

/// The items of a document without any key.
pub open spec fn no_nodes() -> Map<KeyPath, Node> {
    Map::empty()
}

/// The items with `node` put at `path`, unless the path is there already.
pub open spec fn or_insert(nodes: Map<KeyPath, Node>, path: KeyPath, node: Node) -> Map<
    KeyPath,
    Node,
> {
    if nodes.contains_key(path) {
        nodes
    } else {
        nodes.insert(path, node)
    }
}

/// The values of the array held at `path`.
pub open spec fn values_at(nodes: Map<KeyPath, Node>, path: KeyPath) -> Seq<Element> {
    nodes[path]->Array_0
}

/// Nothing is held below `path`: no longer path begins with it.
pub open spec fn is_leaf(nodes: Map<KeyPath, Node>, path: KeyPath) -> bool {
    forall|longer: KeyPath|
        #[trigger] nodes.contains_key(longer) && longer.len() > path.len() ==> longer.take(
            path.len() as int,
        ) != path
}

/// An item is held at `path`.
pub open spec fn holds(nodes: Map<KeyPath, Node>, path: KeyPath) -> bool {
    nodes.contains_key(path) && nodes[path] != Node::Blank
}

/// A standard table is held at `path`.
pub open spec fn holds_table(nodes: Map<KeyPath, Node>, path: KeyPath) -> bool {
    nodes.contains_key(path) && nodes[path] == Node::Table
}

/// An array is held at `path`.
pub open spec fn holds_array(nodes: Map<KeyPath, Node>, path: KeyPath) -> bool {
    nodes.contains_key(path) && nodes[path] is Array
}

/// `Document::from_str`. The result is a function of the text alone: it is
/// `Ok` exactly where the parser accepts the text, and the document then
/// holds the items it read.
#[verifier::external_body]
pub(crate) fn parse_document(text: &str) -> (r: Result<Document, TomlError>)
    ensures
        match r {
            Ok(doc) => parsed_nodes(text@) == Some(document_nodes(doc)),
            Err(_) => parsed_nodes(text@) is None,
        },
{
    Document::from_str(text)
}

/// `Document::new`: a document whose root table has no key.
#[verifier::external_body]
pub(crate) fn empty_document() -> (doc: Document)
    ensures
        document_nodes(doc) == no_nodes(),
{
    Document::new()
}

/// `Table::get` on the root table: whether an item is held under `key`.
#[verifier::external_body]
pub(crate) fn has_item(doc: &Document, key: &str) -> (b: bool)
    ensures
        b == holds(document_nodes(*doc), seq![key@]),
{
    doc.get(key).is_some()
}

/// `Table::entry` on the root table, then `Entry::or_insert` with an empty
/// standard table, then `Item::is_table`. A key that is there already is
/// left as it is, and the document with it; a table that is put in has
/// nothing in it. The result says whether the key now leads to a standard
/// table.
#[verifier::external_body]
pub(crate) fn table_or_insert(doc: &mut Document, key: &str) -> (is_table: bool)
    ensures
        document_nodes(*final(doc)) == or_insert(document_nodes(*old(doc)), seq![key@], Node::Table),
        document_nodes(*old(doc)).contains_key(seq![key@]) ==> *final(doc) == *old(doc),
        !document_nodes(*old(doc)).contains_key(seq![key@]) ==> is_leaf(
            document_nodes(*final(doc)),
            seq![key@],
        ),
        is_table == holds_table(document_nodes(*final(doc)), seq![key@]),
{
    doc.entry(key).or_insert(Item::Table(Table::new())).is_table()
}

/// In the standard table under `table`, which indexing the document and
/// `Item::as_table_mut` reach: `Table::entry`, then `Entry::or_insert` with
/// an empty array, then `Item::as_array` and `Array::len`. A key that is
/// there already is left as it is, and the document with it; the result is
/// the length of the array that the key now leads to, or `None` where it
/// leads to something else. Without a standard table under `table` the
/// call would panic.
#[verifier::external_body]
pub(crate) fn array_or_insert(doc: &mut Document, table: &str, key: &str) -> (len: Option<usize>)
    requires
        holds_table(document_nodes(*old(doc)), seq![table@]),
    ensures
        document_nodes(*final(doc)) == or_insert(
            document_nodes(*old(doc)),
            seq![table@, key@],
            Node::Array(Seq::empty()),
        ),
        document_nodes(*old(doc)).contains_key(seq![table@, key@]) ==> *final(doc) == *old(doc),
        match len {
            Some(n) => holds_array(document_nodes(*final(doc)), seq![table@, key@]) && values_at(
                document_nodes(*final(doc)),
                seq![table@, key@],
            ).len() == n,
            None => !holds_array(document_nodes(*final(doc)), seq![table@, key@]),
        },
{
    doc[table].as_table_mut().unwrap().entry(key).or_insert(
        Item::Value(Value::Array(Array::new())),
    ).as_array().map(Array::len)
}

/// In the array under `key` of the standard table under `table`, which
/// indexing the document twice and `Item::as_array_mut` reach:
/// `Array::push_formatted` of the string `text`, made with `Formatted::new`
/// and given `prefix` and `suffix` by `Value::decorated`. The array gains
/// that one value at its end; nothing else changes. Without such an array
/// the call would panic.
#[verifier::external_body]
pub(crate) fn push_string(
    doc: &mut Document,
    table: &str,
    key: &str,
    text: String,
    prefix: &str,
    suffix: &str,
)
    requires
        holds_table(document_nodes(*old(doc)), seq![table@]),
        holds_array(document_nodes(*old(doc)), seq![table@, key@]),
    ensures
        document_nodes(*final(doc)) == document_nodes(*old(doc)).insert(
            seq![table@, key@],
            Node::Array(
                values_at(document_nodes(*old(doc)), seq![table@, key@]).push(
                    Element::Text { prefix: Some(prefix@), text: text@, suffix: Some(suffix@) },
                ),
            ),
        ),
{
    doc[table][key].as_array_mut().unwrap().push_formatted(
        Value::String(Formatted::new(text)).decorated(prefix, suffix),
    );
}

/// In the standard table under `table`, which indexing the document and
/// `Item::as_table_mut` reach: `Table::entry`, then `Entry::or_insert` with
/// the string `text`, made with `Formatted::new`. A key that is there
/// already is left as it is, and the document with it. Without a standard
/// table under `table` the call would panic.
#[verifier::external_body]
pub(crate) fn string_or_insert(doc: &mut Document, table: &str, key: &str, text: &str)
    requires
        holds_table(document_nodes(*old(doc)), seq![table@]),
    ensures
        document_nodes(*final(doc)) == or_insert(
            document_nodes(*old(doc)),
            seq![table@, key@],
            Node::Text(text@),
        ),
        document_nodes(*old(doc)).contains_key(seq![table@, key@]) ==> *final(doc) == *old(doc),
{
    doc[table].as_table_mut().unwrap().entry(key).or_insert(
        Item::Value(Value::String(Formatted::new(text.to_owned()))),
    );
}

/// `Document::to_string`: the text of the document.
#[verifier::external_body]
pub(crate) fn render_document(doc: &Document) -> (text: String)
    ensures
        text@ == document_text(*doc),
{
    doc.to_string()
}

} // verus!
