//! The formatting-preserving document behind a manifest or a configuration.
//!
//! A document is a `toml_edit::DocumentMut`. Verified code never looks inside
//! one: it reads and edits it through the functions of this module, each of
//! which addresses an entry by the path of the table that holds it and by its
//! key. Each walks from the root down the tables of the path (`Item::as_table`
//! and `Table::get`, or their `_mut` forms) and then makes the one call that
//! its name says. What the calls do is believed, not proved; it is stated
//! over [`doc_nodes`], a map from paths to [`Node`]s, and over [`doc_text`],
//! the document written out. An edit that leaves the nodes as they were
//! leaves the text as it was.

use vstd::prelude::*;
use toml_edit::{DocumentMut, Item, TomlError, Value};
use crate::toml::{Scalar, TomlValue};

verus! {

/// `toml_edit::DocumentMut`: a TOML document that can be edited.
#[verifier::external_type_specification]
#[verifier::external_body]
pub struct ExDocumentMut(toml_edit::DocumentMut);

/// `toml_edit::TomlError`: why a text is no TOML document.
#[verifier::external_type_specification]
#[verifier::external_body]
pub struct ExTomlError(toml_edit::TomlError);

/// `toml_edit::Value`: a value with its spelling and its decoration.
#[verifier::external_type_specification]
#[verifier::external_body]
pub struct ExValue(toml_edit::Value);

/// The whitespace and comments around a value. `None` stands for the
/// decoration that the writer picks by itself.
pub struct Decor {
    pub prefix: Option<Seq<char>>,
    pub suffix: Option<Seq<char>>,
}

/// An element of an inline array.
pub struct Element {
    /// The string, if the element is one.
    pub text: Option<Seq<char>>,
    /// The element is written in the writer's own form: it carries no
    /// spelling from a parsed text.
    pub plain: bool,
    pub decor: Decor,
}

/// What a value holds.
pub enum Content {
    /// An integer, a boolean or a string. `plain` as for [`Element`].
    Scalar { value: Scalar, plain: bool },
    Array { items: Seq<Element> },
    /// An inline table, with the keys under which it holds a value.
    Inline { keys: Seq<Seq<char>> },
    /// A float or a date-time.
    Other,
}

/// What a document holds at a path.
pub enum Node {
    /// A key that was left without an item.
    Empty,
    /// A table with a header of its own (or, if `dotted`, one whose entries
    /// are written as dotted keys), with all its keys in their order.
    Table { dotted: bool, keys: Seq<Seq<char>> },
    /// An array of tables.
    Tables,
    Value { content: Content, decor: Decor },
}

pub type Path = Seq<Seq<char>>;

pub type Nodes = Map<Path, Node>;

/// The document written out, as `to_string` gives it.
pub uninterp spec fn doc_text(doc: DocumentMut) -> Seq<char>;

/// The items of a document by their place. The empty path stands for the
/// root table; a path that ends in a key of a table stands for what the table
/// holds under that key. What lies inside an inline table or an array of
/// tables has no path.
pub uninterp spec fn doc_nodes(doc: DocumentMut) -> Nodes;

/// What the parser makes of a text: nothing where it refuses the text; else
/// what the document that it gives holds, by path, and how that document is
/// written out.
pub uninterp spec fn parsed(text: Seq<char>) -> Option<(Nodes, Seq<char>)>;

/// Whether a text is a TOML document that the parser accepts.
pub open spec fn toml_parses(text: Seq<char>) -> bool {
    parsed(text) is Some
}

/// What the document parsed from a text holds, by path.
pub open spec fn parsed_nodes(text: Seq<char>) -> Nodes {
    match parsed(text) {
        Some(document) => document.0,
        None => Map::empty(),
    }
}

/// How the document parsed from a text is written out.
pub open spec fn parsed_text(text: Seq<char>) -> Seq<char> {
    match parsed(text) {
        Some(document) => document.1,
        None => Seq::empty(),
    }
}

/// A value, detached from any document, as the node it would be in one.
pub uninterp spec fn value_node(value: Value) -> Node;

/// The path that the keys spell.
pub open spec fn path_of(keys: Seq<&str>) -> Path {
    keys.map_values(|k: &str| k@)
}

/// The decoration that the writer picks by itself.
pub open spec fn default_decor() -> Decor {
    Decor { prefix: None, suffix: None }
}

/// A scalar in the writer's own form and with the writer's own decoration.
pub open spec fn fresh_scalar(value: Scalar) -> Node {
    Node::Value { content: Content::Scalar { value, plain: true }, decor: default_decor() }
}

/// A node that is a scalar in the writer's own form.
pub open spec fn is_plain_scalar(node: Node) -> bool {
    node matches Node::Value { content: Content::Scalar { plain: true, .. }, .. }
}

/// Whether `nodes` holds a table at `path`.
pub open spec fn is_table(nodes: Nodes, path: Path) -> bool {
    nodes.contains_key(path) && nodes[path] is Table
}

/// Whether `nodes` holds a value at `path`.
pub open spec fn is_value(nodes: Nodes, path: Path) -> bool {
    nodes.contains_key(path) && nodes[path] is Value
}

/// Whether `nodes` holds an inline array at `path`.
pub open spec fn is_array(nodes: Nodes, path: Path) -> bool {
    nodes.contains_key(path) && nodes[path] matches Node::Value {
        content: Content::Array { .. },
        ..
    }
}

/// The elements of the array at `path`.
pub open spec fn array_items(nodes: Nodes, path: Path) -> Seq<Element> {
    nodes[path]->content->items
}

/// `other` lies below `path`.
pub open spec fn below(path: Path, other: Path) -> bool {
    other.len() > path.len() && other.subrange(0, path.len() as int) == path
}

/// `nodes` without what lies below `path`.
pub open spec fn pruned(nodes: Nodes, path: Path) -> Nodes {
    nodes.remove_keys(Set::new(|other: Path| below(path, other)))
}

/// `nodes` with `node` under `key` in the table at `table`: in the place of
/// what the key held, or, for a new key, behind the table's other keys.
pub open spec fn with_child(nodes: Nodes, table: Path, key: Seq<char>, node: Node) -> Nodes {
    if nodes.contains_key(table.push(key)) {
        nodes.insert(table.push(key), node)
    } else {
        nodes.insert(table.push(key), node).insert(
            table,
            Node::Table { dotted: nodes[table]->dotted, keys: nodes[table]->keys.push(key) },
        )
    }
}

/// What the logic reads of an item.
pub enum Shape {
    Absent,
    Empty,
    Table,
    Tables,
    Scalar(Scalar),
    Array,
    Inline,
    Other,
}

/// What the logic reads of a node.
pub open spec fn node_shape(node: Node) -> Shape {
    match node {
        Node::Empty => Shape::Empty,
        Node::Table { .. } => Shape::Table,
        Node::Tables => Shape::Tables,
        Node::Value { content: Content::Scalar { value, .. }, .. } => Shape::Scalar(value),
        Node::Value { content: Content::Array { .. }, .. } => Shape::Array,
        Node::Value { content: Content::Inline { .. }, .. } => Shape::Inline,
        Node::Value { content: Content::Other, .. } => Shape::Other,
    }
}

/// What `nodes` holds at `path`, as far as the logic reads it.
pub open spec fn shape_of(nodes: Nodes, path: Path) -> Shape {
    if !nodes.contains_key(path) {
        Shape::Absent
    } else {
        node_shape(nodes[path])
    }
}

/// What the logic reads of an item, in executable form.
pub enum ItemShape {
    Absent,
    Empty,
    Table,
    Tables,
    Scalar(TomlValue),
    Array,
    Inline,
    Other,
}

impl View for ItemShape {
    type V = Shape;

    open spec fn view(&self) -> Shape {
        match self {
            ItemShape::Absent => Shape::Absent,
            ItemShape::Empty => Shape::Empty,
            ItemShape::Table => Shape::Table,
            ItemShape::Tables => Shape::Tables,
            ItemShape::Scalar(value) => Shape::Scalar(value@),
            ItemShape::Array => Shape::Array,
            ItemShape::Inline => Shape::Inline,
            ItemShape::Other => Shape::Other,
        }
    }
}

/// The names under which the table or inline table at `path` holds an item.
pub open spec fn entry_names(nodes: Nodes, path: Path) -> Seq<Seq<char>> {
    match nodes[path] {
        Node::Table { keys, .. } => keys.filter(
            |key: Seq<char>| nodes.contains_key(path.push(key)) && !(nodes[path.push(key)] is Empty),
        ),
        Node::Value { content: Content::Inline { keys }, .. } => keys,
        _ => Seq::empty(),
    }
}

/// The string that `text` holds, if it holds one.
pub open spec fn text_view(text: Option<String>) -> Option<Seq<char>> {
    match text {
        Some(s) => Some(s@),
        None => None,
    }
}

/// The string that each element of `texts` holds, if it holds one.
pub open spec fn text_views(texts: Seq<Option<String>>) -> Seq<Option<Seq<char>>> {
    Seq::new(texts.len(), |i: int| text_view(texts[i]))
}

/// For each of `items`, the string it is, if it is one.
pub open spec fn element_texts(items: Seq<Element>) -> Seq<Option<Seq<char>>> {
    Seq::new(items.len(), |i: int| items[i].text)
}

/// What a document without entries holds: its root table.
pub open spec fn root_only() -> Nodes {
    Map::<Path, Node>::empty().insert(
        Seq::empty(),
        Node::Table { dotted: false, keys: Seq::empty() },
    )
}

/// `str::parse::<DocumentMut>`: whether the parser accepts a text, and the
/// document that it gives, depend on the text alone. Of what the document
/// holds only this is claimed besides: its root is a table, as the root of
/// every document is.
#[verifier::external_body]
pub(crate) fn parse_document(text: &str) -> (r: Result<DocumentMut, TomlError>)
    ensures
        (r is Ok) == (parsed(text@) is Some),
        r matches Ok(doc) ==> parsed(text@) == Some((doc_nodes(doc), doc_text(doc))),
        r matches Ok(doc) ==> is_table(doc_nodes(doc), Seq::empty()),
{
    text.parse::<DocumentMut>()
}

/// `DocumentMut::new`: a root table without keys, written out as nothing.
#[verifier::external_body]
pub(crate) fn new_document() -> (doc: DocumentMut)
    ensures
        doc_nodes(doc) == root_only(),
        doc_text(doc) == Seq::<char>::empty(),
{
    DocumentMut::new()
}

/// `DocumentMut::to_string`.
#[verifier::external_body]
pub(crate) fn document_text(doc: &DocumentMut) -> (r: String)
    ensures
        r@ == doc_text(*doc),
{
    doc.to_string()
}

/// `DocumentMut::clone`: the copy holds and writes out what the document does.
pub assume_specification[ <toml_edit::DocumentMut as Clone>::clone ](
    doc: &DocumentMut,
) -> (r: DocumentMut)
    ensures
        doc_nodes(r) == doc_nodes(*doc),
        doc_text(r) == doc_text(*doc),
;

/// An item as it is found in a table; a value is handed out as a copy.
pub enum Found {
    Absent,
    Empty,
    Table,
    Tables,
    Value(Value),
}

/// `found` is what `nodes` holds at `path`.
pub open spec fn found_at(found: Found, nodes: Nodes, path: Path) -> bool {
    match found {
        Found::Absent => !nodes.contains_key(path),
        Found::Empty => nodes.contains_key(path) && nodes[path] is Empty,
        Found::Table => nodes.contains_key(path) && nodes[path] is Table,
        Found::Tables => nodes.contains_key(path) && nodes[path] is Tables,
        Found::Value(value) => nodes.contains_key(path) && nodes[path] is Value && value_node(value)
            == nodes[path],
    }
}

/// `Table::key` and `Table::get` on the table at `table`: a key without an
/// item is `Empty`, a missing key or a missing table `Absent`.
#[verifier::external_body]
pub(crate) fn find_item(doc: &DocumentMut, table: &[&str], key: &str) -> (r: Found)
    ensures
        found_at(r, doc_nodes(*doc), path_of(table@).push(key@)),
{
    let found = table.iter().try_fold(doc.as_item(), |it, k| it.as_table()?.get(k));
    match found.and_then(Item::as_table).and_then(|t| t.key(key).map(|_| t.get(key))) {
        None => Found::Absent,
        Some(None) | Some(Some(Item::None)) => Found::Empty,
        Some(Some(Item::Table(_))) => Found::Table,
        Some(Some(Item::ArrayOfTables(_))) => Found::Tables,
        Some(Some(Item::Value(value))) => Found::Value(value.clone()),
    }
}

/// The variant of a `Value`, with what `Formatted::value` gives for an
/// integer, a boolean or a string.
#[verifier::external_body]
pub(crate) fn value_shape(value: &Value) -> (r: ItemShape)
    ensures
        r@ == node_shape(value_node(*value)),
{
    match value {
        Value::Integer(v) => ItemShape::Scalar(TomlValue::Int(*v.value())),
        Value::Boolean(v) => ItemShape::Scalar(TomlValue::Bool(*v.value())),
        Value::String(v) => ItemShape::Scalar(TomlValue::String(v.value().clone())),
        Value::Array(_) => ItemShape::Array,
        Value::InlineTable(_) => ItemShape::Inline,
        Value::Float(_) | Value::Datetime(_) => ItemShape::Other,
    }
}

/// What the document holds under `key` in the table at `table`.
pub(crate) fn item_shape(doc: &DocumentMut, table: &[&str], key: &str) -> (r: ItemShape)
    ensures
        r@ == shape_of(doc_nodes(*doc), path_of(table@).push(key@)),
{
    match find_item(doc, table, key) {
        Found::Absent => ItemShape::Absent,
        Found::Empty => ItemShape::Empty,
        Found::Table => ItemShape::Table,
        Found::Tables => ItemShape::Tables,
        Found::Value(value) => value_shape(&value),
    }
}

/// `Array::iter` with `Value::as_str`: for each element in order, the string
/// it holds if it is one.
#[verifier::external_body]
pub(crate) fn array_texts(doc: &DocumentMut, table: &[&str], key: &str) -> (r: Vec<Option<String>>)
    requires
        is_array(doc_nodes(*doc), path_of(table@).push(key@)),
    ensures
        text_views(r@) == element_texts(array_items(doc_nodes(*doc), path_of(table@).push(key@))),
{
    let found = table.iter().try_fold(doc.as_item(), |it, k| it.as_table()?.get(k));
    let array = found.unwrap().as_table().unwrap().get(key).unwrap().as_array().unwrap();
    array.iter().map(|v| v.as_str().map(String::from)).collect()
}

/// `Item::as_table_like` with `TableLike::iter`: the names under which a table
/// or an inline table holds an item, in order.
#[verifier::external_body]
pub(crate) fn table_names(doc: &DocumentMut, table: &[&str], key: &str) -> (r: Vec<String>)
    requires
        shape_of(doc_nodes(*doc), path_of(table@).push(key@)) is Table || shape_of(
            doc_nodes(*doc),
            path_of(table@).push(key@),
        ) is Inline,
    ensures
        r@.map_values(|name: String| name@) == entry_names(
            doc_nodes(*doc),
            path_of(table@).push(key@),
        ),
{
    let found = table.iter().try_fold(doc.as_item(), |it, k| it.as_table()?.get(k));
    let item = found.unwrap().as_table().unwrap().get(key).unwrap();
    item.as_table_like().unwrap().iter().map(|(name, _)| name.to_string()).collect()
}

/// `Table::entry` with `Entry::or_insert` of `toml_edit::table()`: a key that
/// the table has keeps what it holds; a new key gets an empty table.
#[verifier::external_body]
pub(crate) fn insert_table(doc: &mut DocumentMut, table: &[&str], key: &str)
    requires
        is_table(doc_nodes(*old(doc)), path_of(table@)),
    ensures
        doc_nodes(*final(doc)) == if doc_nodes(*old(doc)).contains_key(path_of(table@).push(key@)) {
            doc_nodes(*old(doc))
        } else {
            with_child(
                doc_nodes(*old(doc)),
                path_of(table@),
                key@,
                Node::Table { dotted: false, keys: Seq::empty() },
            )
        },
        doc_nodes(*final(doc)) == doc_nodes(*old(doc)) ==> doc_text(*final(doc)) == doc_text(
            *old(doc),
        ),
{
    let found = table.iter().try_fold(doc.as_item_mut(), |it, k| it.as_table_mut()?.get_mut(k));
    found.unwrap().as_table_mut().unwrap().entry(key).or_insert(toml_edit::table());
}

/// `Table::entry` with `Entry::or_insert` of an empty `Array`: a key that the
/// table has keeps what it holds; a new key gets an empty array.
#[verifier::external_body]
pub(crate) fn insert_array(doc: &mut DocumentMut, table: &[&str], key: &str)
    requires
        is_table(doc_nodes(*old(doc)), path_of(table@)),
    ensures
        doc_nodes(*final(doc)) == if doc_nodes(*old(doc)).contains_key(path_of(table@).push(key@)) {
            doc_nodes(*old(doc))
        } else {
            with_child(
                doc_nodes(*old(doc)),
                path_of(table@),
                key@,
                Node::Value {
                    content: Content::Array { items: Seq::empty() },
                    decor: default_decor(),
                },
            )
        },
        doc_nodes(*final(doc)) == doc_nodes(*old(doc)) ==> doc_text(*final(doc)) == doc_text(
            *old(doc),
        ),
{
    let found = table.iter().try_fold(doc.as_item_mut(), |it, k| it.as_table_mut()?.get_mut(k));
    let array = toml_edit::value(toml_edit::Array::new());
    found.unwrap().as_table_mut().unwrap().entry(key).or_insert(array);
}

/// `Table::set_dotted(true)` on the table under `key`.
#[verifier::external_body]
pub(crate) fn set_dotted(doc: &mut DocumentMut, table: &[&str], key: &str)
    requires
        is_table(doc_nodes(*old(doc)), path_of(table@).push(key@)),
    ensures
        doc_nodes(*final(doc)) == doc_nodes(*old(doc)).insert(
            path_of(table@).push(key@),
            Node::Table {
                dotted: true,
                keys: doc_nodes(*old(doc))[path_of(table@).push(key@)]->keys,
            },
        ),
        doc_nodes(*final(doc)) == doc_nodes(*old(doc)) ==> doc_text(*final(doc)) == doc_text(
            *old(doc),
        ),
{
    let found = table.iter().try_fold(doc.as_item_mut(), |it, k| it.as_table_mut()?.get_mut(k));
    let item = found.unwrap().as_table_mut().unwrap().get_mut(key).unwrap();
    item.as_table_mut().unwrap().set_dotted(true);
}

/// `Value::decor` and `Value::decor_mut`, then an assignment to the item that
/// `Table::get_mut` gives: the value under `key` is replaced by `value`,
/// which takes over the decoration of the value it replaces.
#[verifier::external_body]
pub(crate) fn replace_value(doc: &mut DocumentMut, table: &[&str], key: &str, value: Value)
    requires
        is_value(doc_nodes(*old(doc)), path_of(table@).push(key@)),
        is_plain_scalar(value_node(value)),
    ensures
        doc_nodes(*final(doc)) == doc_nodes(*old(doc)).insert(
            path_of(table@).push(key@),
            Node::Value {
                content: value_node(value)->content,
                decor: doc_nodes(*old(doc))[path_of(table@).push(key@)]->decor,
            },
        ),
        doc_nodes(*final(doc)) == doc_nodes(*old(doc)) ==> doc_text(*final(doc)) == doc_text(
            *old(doc),
        ),
{
    let found = table.iter().try_fold(doc.as_item_mut(), |it, k| it.as_table_mut()?.get_mut(k));
    let item = found.unwrap().as_table_mut().unwrap().get_mut(key).unwrap();
    let mut value = value;
    *value.decor_mut() = item.as_value().unwrap().decor().clone();
    *item = toml_edit::value(value);
}

/// An assignment to the item that `Table::get_mut` gives: the table or array
/// of tables under `key`, with all that lies below it, gives way to `value`.
#[verifier::external_body]
pub(crate) fn replace_item(doc: &mut DocumentMut, table: &[&str], key: &str, value: Value)
    requires
        doc_nodes(*old(doc)).contains_key(path_of(table@).push(key@)),
        doc_nodes(*old(doc))[path_of(table@).push(key@)] is Table || doc_nodes(
            *old(doc),
        )[path_of(table@).push(key@)] is Tables,
        is_plain_scalar(value_node(value)),
    ensures
        doc_nodes(*final(doc)) == pruned(doc_nodes(*old(doc)), path_of(table@).push(key@)).insert(
            path_of(table@).push(key@),
            value_node(value),
        ),
        doc_nodes(*final(doc)) == doc_nodes(*old(doc)) ==> doc_text(*final(doc)) == doc_text(
            *old(doc),
        ),
{
    let found = table.iter().try_fold(doc.as_item_mut(), |it, k| it.as_table_mut()?.get_mut(k));
    let item = found.unwrap().as_table_mut().unwrap().get_mut(key).unwrap();
    *item = toml_edit::value(value);
}

/// `Table::insert` under a key that holds no item: a new key goes behind the
/// table's other keys, a key without an item keeps its place.
#[verifier::external_body]
pub(crate) fn insert_value(doc: &mut DocumentMut, table: &[&str], key: &str, value: Value)
    requires
        is_table(doc_nodes(*old(doc)), path_of(table@)),
        shape_of(doc_nodes(*old(doc)), path_of(table@).push(key@)) is Absent || shape_of(
            doc_nodes(*old(doc)),
            path_of(table@).push(key@),
        ) is Empty,
        is_plain_scalar(value_node(value)),
    ensures
        doc_nodes(*final(doc)) == with_child(
            doc_nodes(*old(doc)),
            path_of(table@),
            key@,
            value_node(value),
        ),
        doc_nodes(*final(doc)) == doc_nodes(*old(doc)) ==> doc_text(*final(doc)) == doc_text(
            *old(doc),
        ),
{
    let found = table.iter().try_fold(doc.as_item_mut(), |it, k| it.as_table_mut()?.get_mut(k));
    found.unwrap().as_table_mut().unwrap().insert(key, toml_edit::value(value));
}

/// The decoration `Array::push` gives an element: a space before it unless it
/// is the first.
pub open spec fn pushed_decor(first: bool) -> Decor {
    Decor {
        prefix: Some(
            if first {
                Seq::empty()
            } else {
                seq![' ']
            },
        ),
        suffix: Some(Seq::empty()),
    }
}

/// `Array::push` of a string on the array under `key`.
#[verifier::external_body]
pub(crate) fn array_push(doc: &mut DocumentMut, table: &[&str], key: &str, text: &str)
    requires
        is_array(doc_nodes(*old(doc)), path_of(table@).push(key@)),
    ensures
        doc_nodes(*final(doc)) == doc_nodes(*old(doc)).insert(
            path_of(table@).push(key@),
            Node::Value {
                content: Content::Array {
                    items: array_items(doc_nodes(*old(doc)), path_of(table@).push(key@)).push(
                        Element {
                            text: Some(text@),
                            plain: true,
                            decor: pushed_decor(
                                array_items(doc_nodes(*old(doc)), path_of(table@).push(key@)).len()
                                    == 0,
                            ),
                        },
                    ),
                },
                decor: doc_nodes(*old(doc))[path_of(table@).push(key@)]->decor,
            },
        ),
        doc_nodes(*final(doc)) == doc_nodes(*old(doc)) ==> doc_text(*final(doc)) == doc_text(
            *old(doc),
        ),
{
    let found = table.iter().try_fold(doc.as_item_mut(), |it, k| it.as_table_mut()?.get_mut(k));
    let item = found.unwrap().as_table_mut().unwrap().get_mut(key).unwrap();
    item.as_array_mut().unwrap().push(text);
}

/// `Array::get_mut` and an assignment: the element at `index` is replaced by
/// the string `text`, which takes over the element's decoration.
#[verifier::external_body]
pub(crate) fn array_replace(
    doc: &mut DocumentMut,
    table: &[&str],
    key: &str,
    index: usize,
    text: &str,
)
    requires
        is_array(doc_nodes(*old(doc)), path_of(table@).push(key@)),
        index < array_items(doc_nodes(*old(doc)), path_of(table@).push(key@)).len(),
    ensures
        doc_nodes(*final(doc)) == doc_nodes(*old(doc)).insert(
            path_of(table@).push(key@),
            Node::Value {
                content: Content::Array {
                    items: array_items(doc_nodes(*old(doc)), path_of(table@).push(key@)).update(
                        index as int,
                        Element {
                            text: Some(text@),
                            plain: true,
                            decor: array_items(
                                doc_nodes(*old(doc)),
                                path_of(table@).push(key@),
                            )[index as int].decor,
                        },
                    ),
                },
                decor: doc_nodes(*old(doc))[path_of(table@).push(key@)]->decor,
            },
        ),
        doc_nodes(*final(doc)) == doc_nodes(*old(doc)) ==> doc_text(*final(doc)) == doc_text(
            *old(doc),
        ),
{
    let found = table.iter().try_fold(doc.as_item_mut(), |it, k| it.as_table_mut()?.get_mut(k));
    let item = found.unwrap().as_table_mut().unwrap().get_mut(key).unwrap();
    let element = item.as_array_mut().unwrap().get_mut(index).unwrap();
    let mut value = Value::from(text);
    *value.decor_mut() = element.decor().clone();
    *element = value;
}

/// `nodes` with the scalar `value` under `key` in the table at `table`. A
/// value that the key held hands its decoration on; anything else is
/// replaced, with what lies below it; a key that held nothing is filled, and
/// a new key goes behind the table's other keys.
pub open spec fn with_value(nodes: Nodes, table: Path, key: Seq<char>, value: Scalar) -> Nodes {
    let path = table.push(key);
    match shape_of(nodes, path) {
        Shape::Absent | Shape::Empty => with_child(nodes, table, key, fresh_scalar(value)),
        Shape::Table | Shape::Tables => pruned(nodes, path).insert(path, fresh_scalar(value)),
        _ => nodes.insert(
            path,
            Node::Value {
                content: Content::Scalar { value, plain: true },
                decor: nodes[path]->decor,
            },
        ),
    }
}

/// A write leaves the table that it writes to a table.
pub proof fn lemma_with_value_keeps_table(nodes: Nodes, table: Path, key: Seq<char>, value: Scalar)
    requires
        is_table(nodes, table),
    ensures
        is_table(with_value(nodes, table, key, value), table),
{
    let path = table.push(key);
    assert(path.len() == table.len() + 1);
    assert(!below(path, table));
}

/// Stores a scalar under a key of a table, keeping the decoration of a value
/// that the key holds already.
pub(crate) fn write_scalar(doc: &mut DocumentMut, table: &[&str], key: &str, value: &TomlValue)
    requires
        is_table(doc_nodes(*old(doc)), path_of(table@)),
    ensures
        doc_nodes(*final(doc)) == with_value(
            doc_nodes(*old(doc)),
            path_of(table@),
            key@,
            value@,
        ),
        doc_nodes(*final(doc)) == doc_nodes(*old(doc)) ==> doc_text(*final(doc)) == doc_text(
            *old(doc),
        ),
{
    let new_value = value.to_toml_value();
    match find_item(doc, table, key) {
        Found::Value(_) => replace_value(doc, table, key, new_value),
        Found::Absent | Found::Empty => insert_value(doc, table, key, new_value),
        Found::Table | Found::Tables => replace_item(doc, table, key, new_value),
    }
}

/// `nodes` with an empty table under `key`, unless the key holds something.
pub open spec fn with_table(nodes: Nodes, table: Path, key: Seq<char>) -> Nodes {
    if nodes.contains_key(table.push(key)) {
        nodes
    } else {
        with_child(nodes, table, key, Node::Table { dotted: false, keys: Seq::empty() })
    }
}

/// Whether one of `items` is the string `text`.
pub open spec fn holds_text(items: Seq<Element>, text: Seq<char>) -> bool {
    exists|i: int| 0 <= i < items.len() && (#[trigger] items[i]).text == Some(text)
}

/// `nodes` with the string `text` as a new last element of the array at
/// `path`.
pub open spec fn with_pushed(nodes: Nodes, path: Path, text: Seq<char>) -> Nodes {
    nodes.insert(
        path,
        Node::Value {
            content: Content::Array {
                items: array_items(nodes, path).push(
                    Element {
                        text: Some(text),
                        plain: true,
                        decor: pushed_decor(array_items(nodes, path).len() == 0),
                    },
                ),
            },
            decor: nodes[path]->decor,
        },
    )
}

/// `nodes` with `items` as the elements of the array at `path`.
pub open spec fn with_items(nodes: Nodes, path: Path, items: Seq<Element>) -> Nodes {
    nodes.insert(
        path,
        Node::Value { content: Content::Array { items }, decor: nodes[path]->decor },
    )
}

/// `nodes` with an empty array under `key`, unless the key holds something.
pub open spec fn with_array(nodes: Nodes, table: Path, key: Seq<char>) -> Nodes {
    if nodes.contains_key(table.push(key)) {
        nodes
    } else {
        with_child(
            nodes,
            table,
            key,
            Node::Value { content: Content::Array { items: Seq::empty() }, decor: default_decor() },
        )
    }
}

/// `nodes` with the strings `texts` as new last elements of the array at
/// `path`, first to last.
pub open spec fn with_pushed_all(nodes: Nodes, path: Path, texts: Seq<Seq<char>>) -> Nodes
    decreases texts.len(),
{
    if texts.len() == 0 {
        nodes
    } else {
        with_pushed(with_pushed_all(nodes, path, texts.drop_last()), path, texts.last())
    }
}

/// Whether one of `texts` is the string `text`.
pub(crate) fn holds_string(texts: &Vec<Option<String>>, text: &str) -> (r: bool)
    ensures
        r == exists|i: int| 0 <= i < texts@.len() && text_view(#[trigger] texts@[i]) == Some(text@),
{
    let wanted = String::from_str(text);
    let mut i: usize = 0;
    while i < texts.len()
        invariant
            i <= texts.len(),
            wanted@ == text@,
            forall|k: int| 0 <= k < i ==> text_view(#[trigger] texts@[k]) != Some(text@),
        decreases texts.len() - i,
    {
        let found = match &texts[i] {
            Some(s) => *s == wanted,
            None => false,
        };
        if found {
            return true;
        }
        i += 1;
    }
    false
}

/// Reading the strings of an array tells whether it holds a string.
pub proof fn lemma_holds_text(texts: Seq<Option<String>>, items: Seq<Element>, text: Seq<char>)
    requires
        text_views(texts) == element_texts(items),
    ensures
        holds_text(items, text) == exists|i: int|
            0 <= i < texts.len() && text_view(#[trigger] texts[i]) == Some(text),
{
    assert(text_views(texts).len() == texts.len());
    assert(element_texts(items).len() == items.len());
    if holds_text(items, text) {
        let i = choose|i: int| 0 <= i < items.len() && (#[trigger] items[i]).text == Some(text);
        assert(text_views(texts)[i] == element_texts(items)[i]);
        assert(text_view(texts[i]) == Some(text));
    }
    if exists|i: int| 0 <= i < texts.len() && text_view(#[trigger] texts[i]) == Some(text) {
        let i = choose|i: int| 0 <= i < texts.len() && text_view(#[trigger] texts[i]) == Some(text);
        assert(text_views(texts)[i] == element_texts(items)[i]);
        assert(items[i].text == Some(text));
    }
}

} // verus!
