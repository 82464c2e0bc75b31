//! The core types of the document database: errors, configuration, tree nodes,
//! and the texts of values.
use vstd::prelude::*;

use mongodb::bson::{Bson, Document};

use crate::bson_ext;
use crate::bson_ext::BsonView;
use crate::text;

verus! {

/// An error of any kind, as the `anyhow` crate holds it.
#[verifier::external_type_specification]
#[verifier::external_body]
pub struct ExAnyhowError(anyhow::Error);

/// What can go wrong.
#[derive(Debug)]
pub enum MongoError {
    Connection { message: String, source: Option<anyhow::Error> },
    Command { message: String, source: Option<anyhow::Error> },
    Serialization(String),
    InvalidFilter(String),
    NotConnected,
    Internal(String),
}

/// The text of an error.
pub open spec fn error_text(e: MongoError) -> Seq<char> {
    match e {
        MongoError::Connection { message, .. } => "Connection error: "@ + message@,
        MongoError::Command { message, .. } => "Command error: "@ + message@,
        MongoError::Serialization(message) => "Serialization error: "@ + message@,
        MongoError::InvalidFilter(message) => "Invalid filter: "@ + message@,
        MongoError::NotConnected => "Not connected to MongoDB"@,
        MongoError::Internal(message) => "Internal error: "@ + message@,
    }
}

/// `e` says that an input is not valid, and why.
pub open spec fn is_invalid(e: MongoError, why: Seq<char>) -> bool {
    e matches MongoError::InvalidFilter(message) && message@ == why
}

/// `e` says that a value could not be written as text, and why.
pub open spec fn is_unwritable(e: MongoError, why: Seq<char>) -> bool {
    e matches MongoError::Serialization(message) && message@ == why
}

impl MongoError {
    /// A connection error without a cause.
    pub fn connection(message: String) -> (r: MongoError)
        ensures
            r == (MongoError::Connection { message, source: None }),
    {
        MongoError::Connection { message, source: None }
    }

    /// A connection error with its cause.
    pub fn connection_with_source(message: String, source: anyhow::Error) -> (r: MongoError)
        ensures
            r == (MongoError::Connection { message, source: Some(source) }),
    {
        MongoError::Connection { message, source: Some(source) }
    }

    /// A failed command without a cause.
    pub fn command(message: String) -> (r: MongoError)
        ensures
            r == (MongoError::Command { message, source: None }),
    {
        MongoError::Command { message, source: None }
    }

    /// A failed command with its cause.
    pub fn command_with_source(message: String, source: anyhow::Error) -> (r: MongoError)
        ensures
            r == (MongoError::Command { message, source: Some(source) }),
    {
        MongoError::Command { message, source: Some(source) }
    }

    /// The text of the error.
    pub fn text(&self) -> (r: String)
        ensures
            r@ == error_text(*self),
    {
        match self {
            MongoError::Connection { message, .. } => {
                let mut s = "Connection error: ".to_owned();
                s.append(message.as_str());
                s
            },
            MongoError::Command { message, .. } => {
                let mut s = "Command error: ".to_owned();
                s.append(message.as_str());
                s
            },
            MongoError::Serialization(message) => {
                let mut s = "Serialization error: ".to_owned();
                s.append(message.as_str());
                s
            },
            MongoError::InvalidFilter(message) => {
                let mut s = "Invalid filter: ".to_owned();
                s.append(message.as_str());
                s
            },
            MongoError::NotConnected => "Not connected to MongoDB".to_owned(),
            MongoError::Internal(message) => {
                let mut s = "Internal error: ".to_owned();
                s.append(message.as_str());
                s
            },
        }
    }
}

/// How a server is reached.
#[derive(Clone, Debug)]
pub struct MongoConnectionConfig {
    pub id: String,
    pub name: String,
    pub connection_string: String,
}

/// The kinds of tree nodes.
#[derive(Clone, Copy, Debug, PartialEq, Eq, Structural)]
pub enum MongoNodeType {
    Connection,
    Database,
    Collection,
}

/// A node of the tree of servers, databases and collections.
#[derive(Debug)]
pub struct MongoNode {
    pub id: String,
    pub name: String,
    pub node_type: MongoNodeType,
    pub connection_id: String,
    pub database_name: Option<String>,
    pub collection_name: Option<String>,
    pub children: Vec<MongoNode>,
    pub children_loaded: bool,
}

impl MongoNode {
    /// The node of a server.
    pub fn new_connection(id: String, name: String) -> (r: MongoNode)
        ensures
            r.id == id,
            r.name == name,
            r.node_type == MongoNodeType::Connection,
            r.connection_id == id,
            r.database_name is None,
            r.collection_name is None,
            r.children@.len() == 0,
            !r.children_loaded,
    {
        MongoNode {
            id: id.clone(),
            name,
            node_type: MongoNodeType::Connection,
            connection_id: id,
            database_name: None,
            collection_name: None,
            children: Vec::new(),
            children_loaded: false,
        }
    }

    /// The node of a database.
    pub fn new_database(
        id: String,
        name: String,
        connection_id: String,
        database_name: String,
    ) -> (r: MongoNode)
        ensures
            r.id == id,
            r.name == name,
            r.node_type == MongoNodeType::Database,
            r.connection_id == connection_id,
            r.database_name == Some(database_name),
            r.collection_name is None,
            r.children@.len() == 0,
            !r.children_loaded,
    {
        MongoNode {
            id,
            name,
            node_type: MongoNodeType::Database,
            connection_id,
            database_name: Some(database_name),
            collection_name: None,
            children: Vec::new(),
            children_loaded: false,
        }
    }

    /// The node of a collection; it has no children to load.
    pub fn new_collection(
        id: String,
        name: String,
        connection_id: String,
        database_name: String,
        collection_name: String,
    ) -> (r: MongoNode)
        ensures
            r.id == id,
            r.name == name,
            r.node_type == MongoNodeType::Collection,
            r.connection_id == connection_id,
            r.database_name == Some(database_name),
            r.collection_name == Some(collection_name),
            r.children@.len() == 0,
            r.children_loaded,
    {
        MongoNode {
            id,
            name,
            node_type: MongoNodeType::Collection,
            connection_id,
            database_name: Some(database_name),
            collection_name: Some(collection_name),
            children: Vec::new(),
            children_loaded: true,
        }
    }

    /// Takes over loaded children.
    pub fn set_children(&mut self, children: Vec<MongoNode>)
        ensures
            *final(self) == (MongoNode { children, children_loaded: true, ..*old(self) }),
    {
        self.children = children;
        self.children_loaded = true;
    }

    /// Whether the node can be unfolded.
    pub fn is_expandable(&self) -> (r: bool)
        ensures
            r == (self.node_type != MongoNodeType::Collection),
    {
        matches!(self.node_type, MongoNodeType::Connection | MongoNodeType::Database)
    }
}

// ---------------------------------------------------------------------------
// Texts of values
// ---------------------------------------------------------------------------

/// The extended JSON of a value over several lines.
pub fn bson_to_pretty_json(value: &Bson) -> (r: Result<String, MongoError>)
    ensures
        match bson_ext::json_pretty_text(bson_ext::relaxed_json(bson_ext::bson_view(*value))) {
            Ok(s) => r matches Ok(t) && t@ == s,
            Err(why) => r matches Err(e) && is_unwritable(e, why),
        },
{
    let json = bson_ext::to_relaxed_json(value);
    match bson_ext::write_json_pretty(&json) {
        Ok(s) => Ok(s),
        Err(e) => Err(MongoError::Serialization(e)),
    }
}

/// The extended JSON of a value on one line.
pub fn bson_to_compact_json(value: &Bson) -> (r: Result<String, MongoError>)
    ensures
        match bson_ext::json_text(bson_ext::relaxed_json(bson_ext::bson_view(*value))) {
            Ok(s) => r matches Ok(t) && t@ == s,
            Err(why) => r matches Err(e) && is_unwritable(e, why),
        },
{
    let json = bson_ext::to_relaxed_json(value);
    match bson_ext::write_json(&json) {
        Ok(s) => Ok(s),
        Err(e) => Err(MongoError::Serialization(e)),
    }
}

/// The extended JSON of a document over several lines.
pub fn document_to_pretty_json(document: &Document) -> (r: Result<String, MongoError>)
    ensures
        match bson_ext::json_pretty_text(
            bson_ext::relaxed_json(BsonView::Document(bson_ext::document_view(*document))),
        ) {
            Ok(s) => r matches Ok(t) && t@ == s,
            Err(why) => r matches Err(e) && is_unwritable(e, why),
        },
{
    bson_to_pretty_json(&bson_ext::bson_document(bson_ext::copy_document(document)))
}

/// The text of a truth value.
pub open spec fn bool_text(v: bool) -> Seq<char> {
    if v {
        "true"@
    } else {
        "false"@
    }
}

/// The plain text of a value: of a text the text itself, of numbers and truth
/// values what they read as, of an object id its digits.
pub open spec fn plain_text(v: BsonView) -> Seq<char> {
    match v {
        BsonView::Text(s) => s,
        BsonView::Int32(n) => text::signed_decimal(n as int),
        BsonView::Int64(n) => text::signed_decimal(n as int),
        BsonView::Double(bits) => bson_ext::double_text(bits),
        BsonView::Boolean(b) => bool_text(b),
        BsonView::ObjectId(hex) => hex,
        _ => bson_ext::debug_text(v),
    }
}

/// The plain text of a value.
pub fn bson_to_string(value: &Bson) -> (r: String)
    ensures
        r@ == plain_text(bson_ext::bson_view(*value)),
{
    if let Some(s) = bson_ext::text_of(value) {
        return s;
    }
    if let Some(n) = bson_ext::int32_of(value) {
        return text::signed_number(n as i64);
    }
    if let Some(n) = bson_ext::int64_of(value) {
        return text::signed_number(n);
    }
    if let Some(s) = bson_ext::double_text_of(value) {
        return s;
    }
    if let Some(b) = bson_ext::bool_of(value) {
        return if b {
            "true".to_owned()
        } else {
            "false".to_owned()
        };
    }
    if let Some(s) = bson_ext::object_id_of(value) {
        return s;
    }
    bson_ext::debug_of(value)
}

} // verus!
