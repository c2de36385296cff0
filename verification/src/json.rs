//! The JSON layer: parsing is left to `serde_json`; this module gives its
//! values a mathematical model and one way to look inside them.

use vstd::prelude::*;

verus! {

/// A JSON document as a mathematical value.
///
/// A number is modelled by the decimal text that `serde_json` prints for it,
/// an object by its entries in the order in which `serde_json` walks them.
pub enum Json {
    Null,
    Bool(bool),
    Number(Seq<char>),
    Text(Seq<char>),
    Array(Seq<Json>),
    Object(Seq<(Seq<char>, Json)>),
}

/// `serde_json::Value`, carried through verified code as an opaque value.
#[verifier::external_type_specification]
#[verifier::external_body]
pub struct ExValue(serde_json::Value);

/// The document that a `serde_json::Value` holds.
pub uninterp spec fn json_model(v: serde_json::Value) -> Json;

/// What `serde_json::from_str::<serde_json::Value>` makes of a text: the
/// document it parses to, or `None` where it reports an error.
pub uninterp spec fn json_of_text(text: Seq<char>) -> Option<Json>;

/// One level of a `serde_json::Value`: its variant, with scalars copied out and
/// the children still behind references.
pub enum JsonNode<'a> {
    Null,
    Bool(bool),
    Number(String),
    Text(&'a String),
    Array(&'a Vec<serde_json::Value>),
    Object(Vec<(&'a String, &'a serde_json::Value)>),
}

/// The documents that the elements of an array hold.
pub open spec fn elements_model(items: Seq<serde_json::Value>) -> Seq<Json> {
    items.map_values(|v: serde_json::Value| json_model(v))
}

/// The entries of an object, each key as text and each value as the document
/// it holds.
pub open spec fn members_model(entries: Seq<(&String, &serde_json::Value)>) -> Seq<
    (Seq<char>, Json),
> {
    entries.map_values(|e: (&String, &serde_json::Value)| ((*e.0)@, json_model(*e.1)))
}

impl<'a> JsonNode<'a> {
    /// The document that this node stands for.
    pub open spec fn model(self) -> Json {
        match self {
            JsonNode::Null => Json::Null,
            JsonNode::Bool(b) => Json::Bool(b),
            JsonNode::Number(text) => Json::Number(text@),
            JsonNode::Text(text) => Json::Text(text@),
            JsonNode::Array(items) => Json::Array(elements_model(items@)),
            JsonNode::Object(entries) => Json::Object(members_model(entries@)),
        }
    }
}

/// Calls `serde_json::from_str` for a `serde_json::Value`. The contract names
/// the outcome `json_of_text` of the text: `None` stands for any parse error,
/// and a value that comes back holds the document so named.
#[verifier::external_body]
pub(crate) fn parse_json(raw: &str) -> (r: Option<serde_json::Value>)
    ensures
        match r {
            Some(v) => json_of_text(raw@) == Some(json_model(v)),
            None => json_of_text(raw@) is None,
        },
{
    serde_json::from_str::<serde_json::Value>(raw).ok()
}

/// Tells the variants of `serde_json::Value` apart. A number is handed out as
/// the text that `serde_json::Number`'s `Display` prints, an object as the
/// entries that `serde_json::Map::iter` yields, in that order. The contract
/// says that the node stands for the same document as the value.
#[verifier::external_body]
pub(crate) fn classify<'a>(v: &'a serde_json::Value) -> (n: JsonNode<'a>)
    ensures
        n.model() == json_model(*v),
{
    match v {
        serde_json::Value::Null => JsonNode::Null,
        serde_json::Value::Bool(b) => JsonNode::Bool(*b),
        serde_json::Value::Number(x) => JsonNode::Number(x.to_string()),
        serde_json::Value::String(s) => JsonNode::Text(s),
        serde_json::Value::Array(a) => JsonNode::Array(a),
        serde_json::Value::Object(m) => JsonNode::Object(m.iter().collect()),
    }
}

} // verus!
