//! A plain tree of JSON values, read with `serde_json`.
use vstd::prelude::*;

verus! {

#[verifier::external_type_specification]
#[verifier::external_body]
pub struct ExJsonValue(serde_json::Value);

/// A JSON document as plain values. Object members keep the order in which
/// `serde_json` yields them.
#[derive(Debug)]
pub enum JsonNode {
    Null,
    Bool(bool),
    /// A number, in the text `serde_json` prints for it.
    Number(String),
    Str(String),
    Array(Vec<JsonNode>),
    Object(Vec<(String, JsonNode)>),
}

/// What `serde_json::from_str::<serde_json::Value>` makes of a text, as a
/// plain tree (`None` when the text is not JSON).
pub uninterp spec fn json_parse(text: Seq<char>) -> Option<JsonNode>;

/// Copies a `serde_json::Value` into a [`JsonNode`], variant by variant.
#[verifier::external_body]
fn node_from_value(v: &serde_json::Value) -> JsonNode {
    match v {
        serde_json::Value::Null => JsonNode::Null,
        serde_json::Value::Bool(b) => JsonNode::Bool(*b),
        serde_json::Value::Number(n) => JsonNode::Number(n.to_string()),
        serde_json::Value::String(s) => JsonNode::Str(s.clone()),
        serde_json::Value::Array(a) => JsonNode::Array(a.iter().map(node_from_value).collect()),
        serde_json::Value::Object(m) => JsonNode::Object(
            m.iter().map(|(k, x)| (k.clone(), node_from_value(x))).collect(),
        ),
    }
}

/// The text `serde_json` prints for a JSON value (`Value::to_string`).
pub uninterp spec fn json_text(v: JsonNode) -> Seq<char>;

/// Copies a [`JsonNode`] back into a `serde_json::Value`, variant by variant
/// (a `Number` whose text `serde_json` does not read as a number becomes
/// `null`; one that came from [`parse_json`] always reads back).
#[verifier::external_body]
fn value_from_node(n: &JsonNode) -> serde_json::Value {
    match n {
        JsonNode::Null => serde_json::Value::Null,
        JsonNode::Bool(b) => serde_json::Value::Bool(*b),
        JsonNode::Number(s) => s.parse::<serde_json::Number>().map(serde_json::Value::Number).unwrap_or(serde_json::Value::Null),
        JsonNode::Str(s) => serde_json::Value::String(s.clone()),
        JsonNode::Array(a) => serde_json::Value::Array(a.iter().map(value_from_node).collect()),
        JsonNode::Object(m) => serde_json::Value::Object(
            m.iter().map(|(k, x)| (k.clone(), value_from_node(x))).collect(),
        ),
    }
}

/// Renders a value as compact JSON with `serde_json` (`Value::to_string`).
/// The contract claims only that the text is a function of the value
/// ([`json_text`]).
#[verifier::external_body]
pub fn render_json(n: &JsonNode) -> (r: String)
    ensures
        r@ == json_text(*n),
{
    value_from_node(n).to_string()
}

/// Parses `text` with `serde_json::from_str::<serde_json::Value>`. The
/// contract claims only that the result is a function of the text
/// ([`json_parse`]); what the parser accepts is not restated here.
#[verifier::external_body]
pub fn parse_json(text: &str) -> (r: Option<JsonNode>)
    ensures
        r == json_parse(text@),
{
    serde_json::from_str::<serde_json::Value>(text).ok().as_ref().map(node_from_value)
}

} // verus!
