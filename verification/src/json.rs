//! The document model: a JSON value as a tree, and its mathematical view.

use crate::error::SearchError;
use indexmap::IndexMap;
use serde_json::Value;
use vstd::prelude::*;

verus! {

#[verifier::external_type_specification]
#[verifier::external_body]
pub struct ExValue(Value);

#[verifier::external_type_specification]
#[verifier::external_body]
pub struct ExJsonError(serde_json::Error);

/// The mathematical view of a JSON value.
///
/// A number is held by its canonical decimal text, a string by its
/// characters before quoting. The members of an object keep the order in
/// which they were inserted.
pub enum Tree {
    Null,
    Bool(bool),
    Number(Seq<char>),
    Text(Seq<char>),
    Array(Seq<Tree>),
    Object(Seq<(Seq<char>, Tree)>),
}

/// One member of a JSON object: its key and the value stored under it.
#[derive(Debug, PartialEq, Eq)]
pub struct Member {
    pub key: String,
    pub value: Json,
}

/// A parsed JSON value.
#[derive(Debug, PartialEq, Eq)]
pub enum Json {
    Null,
    Bool(bool),
    /// A number, as its canonical decimal text.
    Number(String),
    /// A string, as its characters before quoting and escaping.
    Text(String),
    Array(Vec<Json>),
    /// An object, its members in insertion order.
    Object(Vec<Member>),
}

/// The tree that a parsed value stands for.
pub open spec fn tree_of(value: &Json) -> Tree
    decreases value,
{
    match value {
        Json::Null => Tree::Null,
        Json::Bool(b) => Tree::Bool(*b),
        Json::Number(text) => Tree::Number(text@),
        Json::Text(text) => Tree::Text(text@),
        Json::Array(items) => Tree::Array(
            Seq::new(
                items.len() as nat,
                |i: int|
                    if 0 <= i < items.len() {
                        tree_of(&items[i])
                    } else {
                        Tree::Null
                    },
            ),
        ),
        Json::Object(members) => Tree::Object(
            Seq::new(
                members.len() as nat,
                |i: int|
                    if 0 <= i < members.len() {
                        (members[i].key@, tree_of(&members[i].value))
                    } else {
                        (Seq::empty(), Tree::Null)
                    },
            ),
        ),
    }
}

/// The members of an object as pairs of a key and a tree, in order.
pub open spec fn members_view(members: Seq<Member>) -> Seq<(Seq<char>, Tree)> {
    Seq::new(members.len(), |i: int| (members[i].key@, members[i].value@))
}

impl View for Json {
    type V = Tree;

    open spec fn view(&self) -> Tree {
        tree_of(self)
    }
}

impl Tree {
    /// A scalar is a value that is neither an array nor an object.
    pub open spec fn is_scalar(self) -> bool {
        !(self is Array) && !(self is Object)
    }
}

/// The JSON text of a scalar: `null`, `true` or `false`, the canonical
/// decimal text of a number, the quoted and escaped form of a string.
/// Containers have no scalar text.
pub open spec fn scalar_text(value: Tree) -> Option<Seq<char>> {
    match value {
        Tree::Null => Some(seq!['n', 'u', 'l', 'l']),
        Tree::Bool(true) => Some(seq!['t', 'r', 'u', 'e']),
        Tree::Bool(false) => Some(seq!['f', 'a', 'l', 's', 'e']),
        Tree::Number(text) => Some(text),
        Tree::Text(text) => Some(quoted_text(text)),
        Tree::Array(_) => None,
        Tree::Object(_) => None,
    }
}

/// The JSON string literal that `serde_json` writes for `text`: the
/// characters between double quotes, escaped where JSON asks for it.
pub uninterp spec fn quoted_text(text: Seq<char>) -> Seq<char>;

/// Calls `Display` of `serde_json::Value::String`. The result is the compact
/// JSON form of the string, which depends on its characters alone.
#[verifier::external_body]
fn quote_text(text: &str) -> (quoted: String)
    ensures
        quoted@ == quoted_text(text@),
{
    serde_json::Value::String(text.to_owned()).to_string()
}

/// Renders a scalar as JSON text; a container gives `None`.
pub fn render_scalar(value: &Json) -> (text: Option<String>)
    ensures
        text is Some <==> value@.is_scalar(),
        text matches Some(t) ==> Some(t@) == scalar_text(value@),
{
    match value {
        Json::Null => {
            proof {
                reveal_strlit("null");
            }
            assert("null"@ =~= seq!['n', 'u', 'l', 'l']);
            Some("null".to_owned())
        },
        Json::Bool(true) => {
            proof {
                reveal_strlit("true");
            }
            assert("true"@ =~= seq!['t', 'r', 'u', 'e']);
            Some("true".to_owned())
        },
        Json::Bool(false) => {
            proof {
                reveal_strlit("false");
            }
            assert("false"@ =~= seq!['f', 'a', 'l', 's', 'e']);
            Some("false".to_owned())
        },
        Json::Number(text) => Some(text.clone()),
        Json::Text(text) => Some(quote_text(text.as_str())),
        Json::Array(_) => None,
        Json::Object(_) => None,
    }
}

/// The members of the JSON object that `serde_json` reads from `text`, in
/// the order in which the text gives them, or `None` where the text is not
/// one JSON object.
pub uninterp spec fn document_of(text: Seq<char>) -> Option<Seq<(Seq<char>, Tree)>>;

/// Moves a `serde_json::Value` into a `Json`, variant by variant. A number
/// is kept as the text that its `Display` writes.
#[verifier::external_body]
fn json_of(value: Value) -> Json {
    match value {
        Value::Null => Json::Null,
        Value::Bool(b) => Json::Bool(b),
        Value::Number(n) => Json::Number(n.to_string()),
        Value::String(s) => Json::Text(s),
        Value::Array(items) => Json::Array(items.into_iter().map(json_of).collect()),
        Value::Object(map) => Json::Object(
            map.into_iter().map(|(key, value)| Member { key, value: json_of(value) }).collect(),
        ),
    }
}

/// Calls `serde_json::from_str` for an `IndexMap` from `String` to `Value`
/// and moves the entries, in the map's order, into members. The outcome
/// depends on the text alone: the members of the object that the text
/// holds, or an error where the text is not one JSON object.
#[verifier::external_body]
fn read_document(content: &str) -> (read: Result<Vec<Member>, serde_json::Error>)
    ensures
        read matches Ok(members) ==> document_of(content@) == Some(members_view(members@)),
        read is Err ==> document_of(content@) is None,
{
    let map: IndexMap<String, Value> = serde_json::from_str(content)?;
    Ok(map.into_iter().map(|(key, value)| Member { key, value: json_of(value) }).collect())
}

/// Parses `content` as one JSON object and returns its members in order.
pub fn parse_document(content: &str) -> (parsed: Result<Vec<Member>, SearchError>)
    ensures
        match document_of(content@) {
            Some(document) => parsed matches Ok(members) && members_view(members@) == document,
            None => parsed matches Err(e) && e == SearchError::InvalidJson,
        },
{
    match read_document(content) {
        Ok(members) => Ok(members),
        Err(_) => Err(SearchError::InvalidJson),
    }
}

} // verus!
